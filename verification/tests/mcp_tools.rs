use grm_adapters::tools::{merge_model_id_alias, remove_model_id_alias};
use grm_adapters::batch::{group_batch_counts, BatchCount};
use grm_adapters::schema::{batch_defaults, batch_op_names};
use grm_adapters::config::{
    default_allowed_hosts, normalize_http_path, parse_startup_options, usage, SessionFileFormat, TransportOptions,
};
use grm_adapters::error::GrmError;
use grm_adapters::help::{known_tools, tool_help_index_topics, Tool};
use grm_adapters::schema::{
    default_atomic, default_batch_response, value_map_to_raw, value_to_raw, BatchOp, BatchResponse, NodeDeleteParams,
    EdgeDeleteParams, NodeUpdateParams, RuntimeValueType,
};
use grm_adapters::server::{route_resource, server_instructions, unsupported_in_neo4j, BackendMode, Resource, ResourceRefusal};
use grm_adapters::service::{ServiceWorkspaceFormat, ServiceWorkspaceMode};
use grm_adapters::tools::{compact_query_doc, introspection_command, IntrospectionKind};
use grm_adapters::value::{JsonNumber, JsonValue};

fn args(items: &[&str]) -> Vec<String> {
    items.iter().map(|s| s.to_string()).collect()
}

fn constraint(e: GrmError) -> String {
    match e {
        GrmError::Constraint(m) => m,
        other => panic!("expected a constraint error, got {other:?}"),
    }
}

#[test]
fn parses_json_values_to_runtime_strings() {
    let raw = value_map_to_raw(vec![
        ("age".to_string(), JsonValue::Number(JsonNumber::PosInt(42))),
        ("name".to_string(), JsonValue::String("Alice".to_string())),
        ("published".to_string(), JsonValue::Bool(true)),
    ])
    .unwrap();
    let get = |k: &str| raw.iter().find(|(key, _)| key == k).map(|(_, v)| v.clone()).unwrap();
    assert_eq!(get("name"), "Alice");
    assert_eq!(get("age"), "42");
    assert_eq!(get("published"), "true");
}

#[test]
fn null_and_composite_values_are_not_graph_values() {
    assert_eq!(
        constraint(value_to_raw(JsonValue::Null).unwrap_err()),
        "null is not a supported graph value; omit the field instead"
    );
    assert_eq!(
        constraint(value_to_raw(JsonValue::Array("[1]".to_string())).unwrap_err()),
        "graph values must be strings, numbers, or booleans"
    );
    assert_eq!(value_to_raw(JsonValue::Number(JsonNumber::NegInt(-5))).unwrap(), "-5");
}

#[test]
fn startup_options_default_to_stdio() {
    let options = parse_startup_options(vec![], vec![]).unwrap();
    assert!(matches!(options.transport, TransportOptions::Stdio));
    assert!(options.load_json.is_none());
    assert!(options.autocommit.is_none());
}

#[test]
fn startup_options_read_http_and_autocommit_flags() {
    let given = args(&[
        "--transport",
        "http",
        "--http-bind",
        "127.0.0.1:9000",
        "--http-path",
        "/mcp",
        "--autocommit-json",
        "session.json",
    ]);
    let options = parse_startup_options(given.clone(), socket_readings(&given)).unwrap();
    match options.transport {
        TransportOptions::Http { bind, path, allowed_hosts } => {
            assert_eq!(bind, "127.0.0.1:9000");
            assert_eq!(path, "/mcp");
            assert_eq!(allowed_hosts, default_allowed_hosts());
        }
        TransportOptions::Stdio => panic!("http was asked for"),
    }
    let target = options.autocommit.unwrap();
    assert_eq!(target.path, "session.json");
    assert!(matches!(target.format, SessionFileFormat::Json));
}

#[test]
fn startup_options_refuse_unknown_flags_with_usage() {
    let message = constraint(parse_startup_options(args(&["--bogus"]), socket_readings(&args(&["--bogus"]))).unwrap_err());
    assert_eq!(message, format!("unknown argument '--bogus'\n{}", usage()));
    let message =
        constraint(parse_startup_options(args(&["--load-json"]), socket_readings(&args(&["--load-json"]))).unwrap_err());
    assert_eq!(message, "--load-json requires a value");
}

#[test]
fn http_paths_must_be_absolute() {
    assert_eq!(normalize_http_path("/mcp".to_string()).unwrap(), "/mcp");
    assert_eq!(constraint(normalize_http_path("mcp".to_string()).unwrap_err()), "--http-path must start with '/'");
    assert_eq!(
        constraint(normalize_http_path("   ".to_string()).unwrap_err()),
        "--http-path requires a non-empty absolute path"
    );
}

#[test]
fn every_known_tool_name_finds_its_tool() {
    let names = known_tools();
    assert_eq!(names.len(), 23);
    assert_eq!(names[0], "grm_help");
    for name in &names {
        let tool = Tool::from_name(name).expect("catalog names are tools");
        assert_eq!(tool.name(), *name);
    }
    assert_eq!(Tool::from_name("grm_unknown"), None);
    assert_eq!(tool_help_index_topics().len(), 23);
}

#[test]
fn batch_defaults_and_delete_ops() {
    assert!(default_atomic());
    assert!(matches!(default_batch_response(), BatchResponse::Summary));
    let delete = BatchOp::NodeDelete(NodeDeleteParams { model: "Note".to_string(), id: 1 });
    assert!(delete.is_delete());
    assert_eq!(delete.op_name(), "node_delete");
    let edge_delete = BatchOp::EdgeDelete(EdgeDeleteParams { model: "Links".to_string(), id: 2 });
    assert!(edge_delete.is_delete());
    assert_eq!(edge_delete.op_name(), "edge_delete");
    let update = BatchOp::NodeUpdate(NodeUpdateParams { model: "Note".to_string(), id: 1, props: vec![] });
    assert!(!update.is_delete());
    assert_eq!(update.op_name(), "node_update");
}

#[test]
fn workspace_keywords_round_trip() {
    for mode in [ServiceWorkspaceMode::Create, ServiceWorkspaceMode::Open] {
        assert_eq!(ServiceWorkspaceMode::parse(mode.as_str()).unwrap(), mode);
    }
    for format in [ServiceWorkspaceFormat::Json, ServiceWorkspaceFormat::Binary] {
        assert_eq!(ServiceWorkspaceFormat::parse(format.as_str()).unwrap(), format);
    }
    assert_eq!(ServiceWorkspaceFormat::parse("bin").unwrap(), ServiceWorkspaceFormat::Binary);
    assert_eq!(
        constraint(ServiceWorkspaceMode::parse("create-or-open").unwrap_err()),
        "unsupported GRM_SERVICE_WORKSPACE_MODE 'create-or-open'; expected 'create' or 'open'"
    );
    for t in [RuntimeValueType::String, RuntimeValueType::Int, RuntimeValueType::Float, RuntimeValueType::Bool] {
        assert_eq!(RuntimeValueType::parse_keyword(t.keyword()), Some(t));
    }
}

#[test]
fn resources_are_routed_by_backend() {
    assert_eq!(route_resource(BackendMode::Local, "grm://graph/export").unwrap(), Resource::GraphExport);
    assert!(matches!(route_resource(BackendMode::Local, "grm://nope"), Err(ResourceRefusal::NotFound)));
    match route_resource(BackendMode::Service, "grm://graph/summary") {
        Err(ResourceRefusal::Unsupported(m)) => assert!(m.starts_with("grm://graph/summary is not supported in gRPC MCP mode yet")),
        _ => panic!("the summary is not served in gRPC mode"),
    }
    match route_resource(BackendMode::Neo4j, "grm://graph/export") {
        Err(ResourceRefusal::Unsupported(m)) => assert!(m.contains("Neo4j MCP mode")),
        _ => panic!("the export is not served in Neo4j mode"),
    }
    assert_eq!(route_resource(BackendMode::Neo4j, "grm://graph/summary").unwrap(), Resource::GraphSummary);
    assert!(unsupported_in_neo4j(BackendMode::Local, "grm_query").is_none());
}

#[test]
fn instructions_depend_on_the_backend() {
    assert!(server_instructions(BackendMode::Local).starts_with("Use GRM tools to inspect and mutate the local runtime graph session."));
    assert!(server_instructions(BackendMode::Neo4j).contains("schema_template_loaded"));
    assert!(server_instructions(BackendMode::Service).contains("ExecuteWorkspace"));
}

#[test]
fn introspection_commands_are_prefixed_once() {
    assert_eq!(
        introspection_command(IntrospectionKind::Explain, "node.find User name=Alice").unwrap(),
        "session.explain node.find User name=Alice"
    );
    assert_eq!(
        introspection_command(IntrospectionKind::Profile, "session.profile edge.find Authored from=1").unwrap(),
        "session.profile edge.find Authored from=1"
    );
    assert_eq!(
        introspection_command(IntrospectionKind::Profile, "session.explain node.find User name=Alice").unwrap_err(),
        "expected session.profile command, got session.explain"
    );
}

#[test]
fn compact_query_doc_keeps_the_text_before_the_output_design() {
    let doc = "GRM query language\r\nnode.find <Model>\r\n## Output Design\r\nlong section";
    let compact = compact_query_doc(doc);
    assert!(compact.contains("node.find <Model>"));
    assert!(!compact.contains("long section"));
}

/// What `SocketAddr` parsing gives for the arguments these tests use.
fn socket_readings(given: &[String]) -> Vec<Result<String, String>> {
    given
        .iter()
        .map(|a| match a.as_str() {
            "127.0.0.1:9000" => Ok("127.0.0.1:9000".to_string()),
            "127.000.0.1:080" => Err("invalid socket address syntax".to_string()),
            "[::1]:0080" => Ok("[::1]:80".to_string()),
            _ => Err("invalid socket address syntax".to_string()),
        })
        .collect()
}

#[test]
fn http_bind_must_be_a_socket_address_where_it_stands() {
    let given = args(&["--http-bind", "bad", "--nope"]);
    let message = constraint(parse_startup_options(given.clone(), socket_readings(&given)).unwrap_err());
    assert_eq!(message, "--http-bind requires host:port: invalid socket address syntax");
    let given = args(&["--transport", "http", "--http-bind", "bad", "--transport", "stdio"]);
    assert!(parse_startup_options(given.clone(), socket_readings(&given)).is_err());
    let given = args(&["--http-bind", "[::1]:0080"]);
    match parse_startup_options(given.clone(), socket_readings(&given)).unwrap().transport {
        TransportOptions::Http { bind, .. } => assert_eq!(bind, "[::1]:80"),
        TransportOptions::Stdio => panic!("a bind address selects http"),
    }
}

#[test]
fn batch_counts_are_grouped_by_operation_then_model() {
    let count = |op: &str, model: &str, n: u64| BatchCount { op: op.to_string(), model: model.to_string(), count: n };
    let groups = group_batch_counts(&vec![
        count("node_create", "User", 2),
        count("edge_create", "Authored", 1),
        count("node_create", "Post", 3),
        count("node_create", "User", 4),
    ]);
    assert_eq!(groups.len(), 2);
    assert_eq!(groups[0].0, "node_create");
    assert_eq!(groups[0].1, vec![("User".to_string(), 4), ("Post".to_string(), 3)]);
    assert_eq!(groups[1].0, "edge_create");
    assert_eq!(groups[1].1, vec![("Authored".to_string(), 1)]);
    assert!(group_batch_counts(&vec![]).is_empty());
}

#[test]
fn batch_defaults_are_atomic_without_deletes_and_summarised() {
    assert_eq!(batch_defaults(), (true, false, "summary"));
    assert!(default_atomic());
    assert_eq!(default_batch_response().keyword(), "summary");
    assert_eq!(BatchResponse::Detailed.keyword(), "detailed");
}

#[test]
fn neo4j_node_find_parses_adapter_controls_as_request_fields() {
    let mut filters = vec![
        ("age>".to_string(), JsonValue::Number(JsonNumber::PosInt(35))),
        ("limit".to_string(), JsonValue::Number(JsonNumber::PosInt(1))),
        ("order".to_string(), JsonValue::String("age:asc".to_string())),
        ("userId".to_string(), JsonValue::Number(JsonNumber::PosInt(7))),
    ];
    let model_id = remove_model_id_alias(&mut filters, "userId").unwrap();
    assert_eq!(model_id, Some(7));
    assert_eq!(filters.iter().map(|(k, _)| k.as_str()).collect::<Vec<_>>(), vec!["age>", "limit", "order"]);
    let mut id = None;
    merge_model_id_alias(&mut id, model_id, "node", "userId").unwrap();
    assert_eq!(id, Some(7));
    let mut other = Some(8);
    match merge_model_id_alias(&mut other, Some(7), "node", "userId") {
        Err(GrmError::Constraint(m)) => assert_eq!(m, "conflicting node id filters 'id' and 'userId'"),
        r => panic!("unexpected {r:?}"),
    }
    let mut kept = vec![("id".to_string(), JsonValue::Number(JsonNumber::PosInt(3)))];
    assert_eq!(remove_model_id_alias(&mut kept, "id").unwrap(), None);
    assert_eq!(kept.len(), 1);
}

#[test]
fn batch_op_names_list_every_operation_tag() {
    let names = batch_op_names();
    assert_eq!(names.len(), 8);
    let op = BatchOp::NodeDelete(NodeDeleteParams { model: "User".to_string(), id: 1 });
    assert!(names.contains(&op.op_name()));
    assert_eq!(names[0], "schema_define_node");
    assert_eq!(names[7], "edge_delete");
}
