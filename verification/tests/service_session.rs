use grm_adapters::cli::CliColors;
use grm_adapters::config::DurabilityFormat;
use grm_adapters::error::GrmError;
use grm_adapters::find_output::{
    defined_line, deleted_line, edge_table_lines, finish_node_create, node_table_lines, property_names,
    service_find_output, FindOutput,
};
use grm_adapters::query::QueryTerm;
use grm_adapters::records::{StoredNode, StoredRel};
use grm_adapters::service::ServiceWorkspaceMode;
use grm_adapters::service_cli::{
    cli_transport_label, cli_workspace_format, cli_workspace_mode, service_banner_lines, service_schema_lines,
    service_script_command, summary_lines, ServiceEdgeModel, ServiceNodeModel, SummaryInfo,
};
use grm_adapters::service_commands::{plan_service_command, ScalarArg, ServiceCommand, ServiceStep};
use grm_adapters::session::{Bindings, ServiceOutputFormat};
use grm_adapters::value::{JsonNumber, JsonValue};

fn plain() -> CliColors {
    CliColors::for_terminal(false)
}

fn arg(key: &str, value: &str) -> ScalarArg {
    ScalarArg { key: key.to_string(), value: value.to_string(), float_reading: None }
}

fn text(s: &str) -> JsonValue {
    JsonValue::String(s.to_string())
}

fn year(y: u64) -> JsonValue {
    JsonValue::Number(JsonNumber::PosInt(y))
}

fn user(id: i64, name: &str) -> StoredNode {
    StoredNode { id, labels: vec!["User".to_string()], props: vec![("name".to_string(), text(name))] }
}

fn authored() -> StoredRel {
    StoredRel { id: 1, rel_type: "AUTHORED".to_string(), from: 1, to: 2, props: vec![("year".to_string(), year(2026))] }
}

#[test]
fn workspace_settings_default_to_open_and_binary() {
    assert_eq!(cli_workspace_mode(None).unwrap(), ServiceWorkspaceMode::Open);
    assert_eq!(cli_workspace_mode(Some("create".to_string())).unwrap(), ServiceWorkspaceMode::Create);
    assert!(cli_workspace_mode(Some("fresh".to_string())).is_err());
    assert!(matches!(cli_workspace_format(None).unwrap(), (DurabilityFormat::Binary, false)));
    assert!(matches!(cli_workspace_format(Some("json".to_string())).unwrap(), (DurabilityFormat::Json, true)));
    assert!(matches!(cli_workspace_format(Some("bin".to_string())).unwrap(), (DurabilityFormat::Binary, true)));
    match cli_workspace_format(Some("yaml".to_string())) {
        Err(GrmError::Constraint(m)) => {
            assert_eq!(m, "unsupported GRM_SERVICE_WORKSPACE_FORMAT 'yaml'; expected 'json', 'bin', or 'binary'")
        }
        _ => panic!("yaml is not a workspace format"),
    }
}

#[test]
fn banner_names_the_session() {
    let lines = service_banner_lines("http://127.0.0.1:50051", "movies", false, false, ServiceWorkspaceMode::Create, DurabilityFormat::Binary, false);
    assert_eq!(lines[0], "Welcome to GRM-RS CLI.");
    assert_eq!(lines[1], "Service-backed workspace session ready.");
    assert!(lines.contains(&"Backend: gRPC workspace storage".to_string()));
    assert!(lines.contains(&"Transport: insecure local gRPC".to_string()));
    assert!(lines.contains(&"Workspace: movies".to_string()));
    assert!(lines.contains(&"Mode: create".to_string()));
    assert!(lines.contains(&"Persistence format: binary (default)".to_string()));
    assert_eq!(cli_transport_label(true, true), "TLS with client certificate");
    assert_eq!(cli_transport_label(true, false), "TLS");
}

#[test]
fn script_lines_lose_comments_and_blank_lines() {
    assert_eq!(service_script_command("node.find Person name=\"Hash # Actor\"  # find him").unwrap(), "node.find Person name=\"Hash # Actor\"");
    assert_eq!(service_script_command("   # only a comment"), None);
    assert_eq!(service_script_command("   "), None);
    assert_eq!(service_script_command("  session.exit  ").unwrap(), "session.exit");
}

#[test]
fn summary_counts_rows_by_type() {
    let info = SummaryInfo {
        endpoint: "http://127.0.0.1:50051".to_string(),
        workspace_id: "cli-service-smoke".to_string(),
        mode: ServiceWorkspaceMode::Create,
        format: DurabilityFormat::Binary,
        format_explicit: false,
    };
    let lines = summary_lines(
        &info,
        &vec!["User".to_string(), "Post".to_string()],
        &vec![1, 2],
        &vec!["AUTHORED".to_string()],
        &vec![1],
        false,
        &plain(),
    );
    assert_eq!(lines[0], "Session Summary");
    assert!(lines.contains(&"Mode: create".to_string()));
    assert!(lines.contains(&"Persistence format: binary (default)".to_string()));
    assert!(lines.contains(&"  nodes: User, Post".to_string()));
    assert!(lines.contains(&"  links: AUTHORED".to_string()));
    assert!(lines.contains(&"Stored rows: 3 nodes, 1 edges".to_string()));
    assert!(lines.contains(&"+------+----------+-------+".to_string()));
    assert!(lines.contains(&"| node | User     | 1     |".to_string()));
    assert!(lines.contains(&"| node | Post     | 2     |".to_string()));
    assert!(lines.contains(&"| edge | AUTHORED | 1     |".to_string()));
    assert_eq!(lines[lines.len() - 1], "Autocommit: service-managed local workspace");
}

#[test]
fn empty_summary_says_none() {
    let info = SummaryInfo {
        endpoint: "e".to_string(),
        workspace_id: "w".to_string(),
        mode: ServiceWorkspaceMode::Open,
        format: DurabilityFormat::Json,
        format_explicit: true,
    };
    let lines = summary_lines(&info, &vec![], &vec![], &vec![], &vec![], true, &plain());
    assert!(lines.contains(&"Persistence format: json (explicit)".to_string()));
    assert_eq!(lines.iter().filter(|l| l.as_str() == "  none").count(), 2);
    assert!(lines[lines.len() - 1].starts_with("Supported traversal subset"));
}

#[test]
fn schema_lines_show_models_and_endpoints() {
    let nodes = vec![ServiceNodeModel { name: "User".to_string(), id_field_name: "userId".to_string() }];
    let edges = vec![ServiceEdgeModel {
        name: "AUTHORED".to_string(),
        id_field_name: "authoredId".to_string(),
        from_model: "User".to_string(),
        to_model: "Post".to_string(),
    }];
    let lines = service_schema_lines(&nodes, &edges, &plain());
    assert_eq!(lines[0], "Service Schema");
    assert!(lines.contains(&"| kind | type     | id field   | endpoints    |".to_string()));
    assert!(lines.contains(&"| edge | AUTHORED | authoredId | User -> Post |".to_string()));
    assert_eq!(service_schema_lines(&vec![], &vec![], &plain()), vec!["Service Schema", "  none"]);
}

#[test]
fn planning_node_create_checks_the_binding_and_converts_assignments() {
    let mut bindings = Bindings::new();
    let cmd = ServiceCommand::NodeCreate {
        binding: Some("alice".to_string()),
        model_name: "User".to_string(),
        assignments: vec![arg("name", "Ada"), arg("age", "36")],
    };
    match plan_service_command(cmd, &bindings, false, "let alice = node.create User name=Ada age=36", &plain()) {
        Ok(ServiceStep::CreateNode { binding, model, props }) => {
            assert_eq!(binding.as_deref(), Some("alice"));
            assert_eq!(model, "User");
            assert_eq!(props.iter().map(|(k, _)| k.as_str()).collect::<Vec<_>>(), vec!["age", "name"]);
        }
        other => panic!("unexpected plan {other:?}"),
    }
    let line = finish_node_create(&mut bindings, Some("alice".to_string()), &user(1, "Ada"), &plain());
    assert_eq!(line, "Node User id=1 {name=Ada}");
    assert_eq!(bindings.get("alice"), Some(1));
    let again = ServiceCommand::NodeCreate { binding: Some("alice".to_string()), model_name: "User".to_string(), assignments: vec![] };
    match plan_service_command(again, &bindings, false, "let alice = node.create User", &plain()) {
        Err(GrmError::Constraint(m)) => assert_eq!(m, "binding 'alice' already exists"),
        other => panic!("unexpected plan {other:?}"),
    }
}

#[test]
fn planning_edge_create_resolves_endpoints() {
    let mut bindings = Bindings::new();
    bindings.insert("alice".to_string(), 1);
    bindings.insert("post".to_string(), 2);
    let cmd = ServiceCommand::EdgeCreate {
        model_name: "AUTHORED".to_string(),
        assignments: vec![arg("from", "alice"), arg("to", "post"), arg("year", "2026")],
    };
    match plan_service_command(cmd, &bindings, false, "edge.create AUTHORED from=alice to=post year=2026", &plain()) {
        Ok(ServiceStep::CreateEdge { model, from, to, props }) => {
            assert_eq!(model, "AUTHORED");
            assert_eq!((from, to), (1, 2));
            assert_eq!(props.len(), 1);
            assert_eq!(props[0].0, "year");
        }
        other => panic!("unexpected plan {other:?}"),
    }
    let missing = ServiceCommand::EdgeCreate { model_name: "AUTHORED".to_string(), assignments: vec![arg("to", "post")] };
    match plan_service_command(missing, &bindings, false, "edge.create AUTHORED to=post", &plain()) {
        Err(GrmError::Constraint(m)) => assert_eq!(m, "edge.create requires from=<id>"),
        other => panic!("unexpected plan {other:?}"),
    }
}

#[test]
fn planning_finds_refuses_graph_format() {
    let bindings = Bindings::new();
    let node_find = ServiceCommand::NodeFind {
        model_name: "User".to_string(),
        terms: vec![QueryTerm { key: "format".to_string(), value: "graph".to_string() }],
    };
    match plan_service_command(node_find, &bindings, false, "node.find User format=graph", &plain()) {
        Err(GrmError::NotSupported(m)) => assert!(m.contains("does not currently include traversal path rows")),
        other => panic!("unexpected plan {other:?}"),
    }
    let edge_find = ServiceCommand::EdgeFind { model_name: "AUTHORED".to_string(), terms: vec![arg("format", "graph")] };
    match plan_service_command(edge_find, &bindings, false, "edge.find AUTHORED format=graph", &plain()) {
        Err(GrmError::NotSupported(m)) => assert!(m.starts_with("format=graph is only supported for graph-shaped node.find results")),
        other => panic!("unexpected plan {other:?}"),
    }
    let table = ServiceCommand::NodeFind {
        model_name: "User".to_string(),
        terms: vec![QueryTerm { key: "format".to_string(), value: "table".to_string() }],
    };
    assert!(matches!(
        plan_service_command(table, &bindings, false, "node.find User format=table", &plain()),
        Ok(ServiceStep::FindNodes { format: ServiceOutputFormat::Table, .. })
    ));
}

#[test]
fn planning_unknown_and_local_commands_depends_on_scripts() {
    let bindings = Bindings::new();
    match plan_service_command(ServiceCommand::Unknown, &bindings, false, "frobnicate", &plain()) {
        Ok(ServiceStep::Write(lines)) => assert_eq!(lines, vec!["Unknown command: frobnicate"]),
        other => panic!("unexpected plan {other:?}"),
    }
    match plan_service_command(ServiceCommand::Unknown, &bindings, true, "frobnicate", &plain()) {
        Err(GrmError::Constraint(m)) => assert_eq!(m, "unknown command: frobnicate"),
        other => panic!("unexpected plan {other:?}"),
    }
    match plan_service_command(ServiceCommand::LocalOnly, &bindings, false, "session.save", &plain()) {
        Ok(ServiceStep::Write(lines)) => assert_eq!(lines, vec!["Command is local-only or not supported in gRPC service CLI mode yet"]),
        other => panic!("unexpected plan {other:?}"),
    }
    assert!(matches!(
        plan_service_command(ServiceCommand::LocalOnly, &bindings, true, "session.save", &plain()),
        Err(GrmError::NotSupported(_))
    ));
    assert!(matches!(plan_service_command(ServiceCommand::Exit, &bindings, true, "session.exit", &plain()), Ok(ServiceStep::Exit)));
    match plan_service_command(ServiceCommand::NodeDelete { model_name: "User".to_string(), id: "x".to_string() }, &bindings, false, "node.delete User x", &plain()) {
        Err(GrmError::Constraint(m)) => assert_eq!(m, "node id must be an integer"),
        other => panic!("unexpected plan {other:?}"),
    }
    match plan_service_command(ServiceCommand::ModelDefine { args: vec!["User".to_string()] }, &bindings, false, "model.define User", &plain()) {
        Err(GrmError::Constraint(m)) => assert!(m.starts_with("usage: model.define")),
        other => panic!("unexpected plan {other:?}"),
    }
}

#[test]
fn find_results_render_as_lines_or_tables() {
    let nodes = vec![user(1, "Ada")];
    let edges = vec![authored()];
    match service_find_output(&nodes, &vec![], ServiceOutputFormat::Default, &plain()).unwrap() {
        FindOutput::Lines(lines) => assert_eq!(lines, vec!["Node User id=1 {name=Ada}"]),
        FindOutput::Jsonl => panic!("default output is lines"),
    }
    match service_find_output(&nodes, &vec![], ServiceOutputFormat::Table, &plain()).unwrap() {
        FindOutput::Lines(lines) => assert!(lines.contains(&"| id | labels | name |".to_string())),
        FindOutput::Jsonl => panic!("table output is lines"),
    }
    match service_find_output(&vec![], &edges, ServiceOutputFormat::Table, &plain()).unwrap() {
        FindOutput::Lines(lines) => assert!(lines.contains(&"| id | from | to | type     | year |".to_string())),
        FindOutput::Jsonl => panic!("table output is lines"),
    }
    match service_find_output(&vec![], &vec![], ServiceOutputFormat::Table, &plain()).unwrap() {
        FindOutput::Lines(lines) => assert_eq!(lines, vec!["No results."]),
        FindOutput::Jsonl => panic!("table output is lines"),
    }
    assert!(matches!(service_find_output(&nodes, &edges, ServiceOutputFormat::Jsonl, &plain()).unwrap(), FindOutput::Jsonl));
    match service_find_output(&nodes, &edges, ServiceOutputFormat::Graph, &plain()) {
        Err(GrmError::NotSupported(m)) => assert_eq!(m, "format=graph is not supported by flat service find responses"),
        _ => panic!("graph is not a flat format"),
    }
}

#[test]
fn tables_list_every_property_name_once_in_order() {
    let nodes = vec![
        StoredNode { id: 1, labels: vec!["User".to_string()], props: vec![("name".to_string(), text("Ada"))] },
        StoredNode {
            id: 2,
            labels: vec!["User".to_string(), "Admin".to_string()],
            props: vec![("age".to_string(), year(36)), ("name".to_string(), text("Grace Hopper"))],
        },
    ];
    let lines = node_table_lines(&nodes, &plain());
    assert_eq!(lines[1], "| id | labels     | age | name           |");
    assert_eq!(lines[3], "| 1  | User       |     | Ada            |");
    assert_eq!(lines[4], "| 2  | User,Admin | 36  | \"Grace Hopper\" |");
    let names = property_names(&vec![nodes[1].props.clone(), nodes[0].props.clone()]);
    assert_eq!(names, vec!["age".to_string(), "name".to_string()]);
    let edge_lines = edge_table_lines(&vec![authored()], &plain());
    assert_eq!(edge_lines[0], "+----+------+----+----------+------+");
}

#[test]
fn delete_and_define_lines() {
    assert_eq!(deleted_line(false, "User", 3), "Deleted node User id=3");
    assert_eq!(deleted_line(true, "AUTHORED", -1), "Deleted edge AUTHORED id=-1");
    assert_eq!(defined_line(false), "Defined node model");
    assert_eq!(defined_line(true), "Defined edge model");
}
