use grm_adapters::cli::{
    session_launch, strip_service_script_comment, LoadAutocommit, SessionLaunch,
    parse_session_startup, visible_width, CliColors, SessionStartup, StartupAutocommit, StartupLoadFormat,
};
use grm_adapters::session::{
    assignments_to_json, edge_line, ensure_binding_available, node_line, parse_i64_or_binding,
    parse_scalar, plan_step_lines, props_display, scalar_display, service_explain_lines,
    service_help_lines, service_output_format, service_profile_lines, session_usage,
    take_required_id_or_binding, terms_to_json_filters, Bindings, ServiceOutputFormat,
};
use grm_adapters::query::QueryTerm;
use grm_adapters::records::{StoredNode, StoredRel};
use grm_adapters::value::{JsonNumber, JsonValue};
use grm_adapters::error::GrmError;

fn args(items: &[&str]) -> Vec<String> {
    items.iter().map(|s| s.to_string()).collect()
}

fn term(key: &str, value: &str) -> QueryTerm {
    QueryTerm { key: key.to_string(), value: value.to_string() }
}

fn num(i: u64) -> JsonValue {
    JsonValue::Number(JsonNumber::PosInt(i))
}

fn text(s: &str) -> JsonValue {
    JsonValue::String(s.to_string())
}

#[test]
fn parses_fresh_session() {
    assert_eq!(parse_session_startup(vec![]).unwrap(), SessionStartup::Fresh);
}

#[test]
fn parses_load_json_with_autocommit_on() {
    assert_eq!(
        parse_session_startup(args(&["--load", "json", "session.json", "--autocommit", "on"])).unwrap(),
        SessionStartup::Load {
            format: StartupLoadFormat::Json,
            path: "session.json".to_string(),
            autocommit: StartupAutocommit::On,
        }
    );
}

#[test]
fn rejects_autocommit_without_load() {
    assert!(parse_session_startup(args(&["--autocommit", "on"])).unwrap_err().contains("--load"));
}

#[test]
fn visible_width_ignores_ansi_colors() {
    let colors = CliColors::for_terminal(true);
    assert_eq!(visible_width(&colors.type_label("User")), 4);
    assert_eq!(visible_width(&colors.property_name("name")), 4);
}

#[test]
fn coloured_string_values_keep_their_width() {
    let colors = CliColors::for_terminal(true);
    let shown = colors.string_value("Graph Film");
    assert_ne!(shown, "Graph Film");
    assert_eq!(visible_width(&shown), 10);
    assert_eq!(visible_width(&CliColors::for_terminal(false).string_value("Ada")), 3);
}

#[test]
fn startup_rejects_script_with_load_and_unknown_options() {
    assert_eq!(
        parse_session_startup(args(&["--script", "a.grm", "--load", "bin", "b.bin"])).unwrap_err(),
        "--script and --load cannot be combined yet"
    );
    assert_eq!(
        parse_session_startup(args(&["--load", "yaml", "x"])).unwrap_err(),
        "unknown --load format 'yaml'"
    );
    assert_eq!(parse_session_startup(args(&["--verbose"])).unwrap_err(), "unknown session option '--verbose'");
    assert_eq!(parse_session_startup(args(&["--script"])).unwrap_err(), "--script requires <path>");
    assert_eq!(
        parse_session_startup(args(&["--script", "movies.grm"])).unwrap(),
        SessionStartup::Script { path: "movies.grm".to_string() }
    );
}

#[test]
fn session_usage_names_both_modes() {
    let usage = session_usage();
    assert!(usage.starts_with("Usage: grm session [--script <path> | --load json|bin <path> [--autocommit on|off]]"));
    assert!(usage.contains("GRM_SERVICE_WORKSPACE_MODE defaults to open when omitted."));
    assert!(usage.ends_with("GRM_SERVICE_WORKSPACE_MODE=open."));
}

#[test]
fn output_format_comes_from_the_first_format_term() {
    assert_eq!(service_output_format(&vec![]).unwrap(), ServiceOutputFormat::Default);
    assert_eq!(
        service_output_format(&vec![term("name", "Ada"), term("format", "table"), term("format", "jsonl")]).unwrap(),
        ServiceOutputFormat::Table
    );
    assert_eq!(service_output_format(&vec![term("format", "graph")]).unwrap(), ServiceOutputFormat::Graph);
    match service_output_format(&vec![term("format", "csv")]) {
        Err(GrmError::Constraint(m)) => assert_eq!(m, "format must be one of: default, jsonl, table, graph"),
        _ => panic!("csv is not an output format"),
    }
}

#[test]
fn scalar_display_quotes_strings_with_spaces() {
    let plain = CliColors::for_terminal(false);
    assert_eq!(scalar_display(&text("Ada"), &plain), "Ada");
    assert_eq!(scalar_display(&text("Hash # Actor"), &plain), "\"Hash # Actor\"");
    assert_eq!(scalar_display(&num(2026), &plain), "2026");
    assert_eq!(scalar_display(&JsonValue::Number(JsonNumber::NegInt(-3)), &plain), "-3");
    assert_eq!(scalar_display(&JsonValue::Bool(true), &plain), "true");
    assert_eq!(scalar_display(&JsonValue::Null, &plain), "null");
    let coloured = CliColors::for_terminal(true);
    assert_eq!(scalar_display(&text("Ada"), &coloured), "\x1b[38;5;208mAda\x1b[0m");
}

#[test]
fn props_display_lists_entries_in_braces() {
    let plain = CliColors::for_terminal(false);
    assert_eq!(props_display(&vec![], &plain), "{}");
    let props = vec![("name".to_string(), text("Ada")), ("year".to_string(), num(2026))];
    assert_eq!(props_display(&props, &plain), "{name=Ada year=2026}");
}

#[test]
fn node_and_edge_lines_match_the_session_output() {
    let plain = CliColors::for_terminal(false);
    let node = StoredNode { id: 1, labels: vec!["User".to_string()], props: vec![("name".to_string(), text("Ada"))] };
    assert_eq!(node_line(&node, &plain), "Node User id=1 {name=Ada}");
    let post = StoredNode { id: 3, labels: vec!["Post".to_string()], props: vec![("title".to_string(), text("alice"))] };
    assert_eq!(node_line(&post, &plain), "Node Post id=3 {title=alice}");
    let edge = StoredRel {
        id: 1,
        rel_type: "AUTHORED".to_string(),
        from: 1,
        to: 2,
        props: vec![("year".to_string(), num(2026))],
    };
    assert_eq!(edge_line(&edge, &plain), "Edge AUTHORED id=1 from=1 to=2 {year=2026}");
    let bare = StoredNode { id: -4, labels: vec![], props: vec![] };
    assert_eq!(node_line(&bare, &plain), "Node  id=-4 {}");
}

#[test]
fn plan_lines_number_the_steps_from_one() {
    let steps = vec!["NodeScan".to_string(), "ExpandOut".to_string()];
    assert_eq!(plan_step_lines(&steps), vec!["Plan steps:", "  1. NodeScan", "  2. ExpandOut"]);
    assert_eq!(
        service_explain_lines("node.find", &steps),
        vec!["Current logical plan for node.find", "Plan steps:", "  1. NodeScan", "  2. ExpandOut"]
    );
    let profile = service_profile_lines(Some(("edge.find".to_string(), vec!["RelationshipEndpointSeek".to_string()])), 1, 42)
        .unwrap();
    assert_eq!(
        profile,
        vec!["Profile for edge.find", "Plan steps:", "  1. RelationshipEndpointSeek", "Result rows: 1", "Elapsed: 42us"]
    );
    match service_profile_lines(None, 0, 0) {
        Err(GrmError::Constraint(m)) => assert_eq!(m, "service profile response is missing plan"),
        _ => panic!("a profile without a plan is refused"),
    }
}

#[test]
fn service_help_lists_the_supported_commands() {
    let lines = service_help_lines(&CliColors::for_terminal(false));
    assert_eq!(lines[0], "Available commands in gRPC service mode:");
    assert!(lines.contains(&"  let <name> = node.create <ModelName> [field=value ...]".to_string()));
    assert!(lines.contains(&"  edge.create <LinkName> from=<id|binding> to=<id|binding> [field=value ...]".to_string()));
    assert!(lines.contains(&"  model.list | link.list | session.describe".to_string()));
    assert_eq!(lines[lines.len() - 2], "");
    assert!(lines[lines.len() - 1].starts_with("Local-only or unsupported in gRPC service mode"));
}

#[test]
fn bindings_give_back_what_let_bound() {
    let mut bindings = Bindings::new();
    assert_eq!(bindings.get("alice"), None);
    assert!(ensure_binding_available(&bindings, "alice").is_ok());
    bindings.insert("alice".to_string(), 1);
    bindings.insert("post".to_string(), 2);
    assert_eq!(bindings.get("alice"), Some(1));
    assert_eq!(bindings.get("post"), Some(2));
    match ensure_binding_available(&bindings, "alice") {
        Err(GrmError::Constraint(m)) => assert_eq!(m, "binding 'alice' already exists"),
        _ => panic!("a bound name is taken"),
    }
    bindings.insert("alice".to_string(), 7);
    assert_eq!(bindings.get("alice"), Some(7));
}

#[test]
fn integer_arguments_accept_bindings_or_digits() {
    let mut bindings = Bindings::new();
    bindings.insert("alice".to_string(), 5);
    assert_eq!(parse_i64_or_binding("alice", "id", &bindings).unwrap(), 5);
    assert_eq!(parse_i64_or_binding("-12", "id", &bindings).unwrap(), -12);
    match parse_i64_or_binding("bob", "id", &bindings) {
        Err(GrmError::Constraint(m)) => assert_eq!(m, "id must be an integer"),
        _ => panic!("bob is neither bound nor a number"),
    }
}

#[test]
fn scalars_read_as_booleans_integers_floats_or_text() {
    assert!(matches!(parse_scalar("true", None), JsonValue::Bool(true)));
    assert!(matches!(parse_scalar("false", None), JsonValue::Bool(false)));
    assert!(matches!(parse_scalar("42", None), JsonValue::Number(JsonNumber::PosInt(42))));
    assert!(matches!(parse_scalar("-7", None), JsonValue::Number(JsonNumber::NegInt(-7))));
    let float = JsonValue::Number(JsonNumber::Float("2.5".to_string()));
    assert!(matches!(parse_scalar("2.5", Some(float)), JsonValue::Number(JsonNumber::Float(t)) if t == "2.5"));
    assert!(matches!(parse_scalar("Ada", None), JsonValue::String(t) if t == "Ada"));
}

#[test]
fn endpoints_are_taken_from_properties() {
    let mut bindings = Bindings::new();
    bindings.insert("alice".to_string(), 1);
    let mut props = vec![("from".to_string(), text("alice")), ("to".to_string(), num(2)), ("year".to_string(), num(2026))];
    assert_eq!(take_required_id_or_binding(&mut props, "from", &bindings).unwrap(), 1);
    assert_eq!(take_required_id_or_binding(&mut props, "to", &bindings).unwrap(), 2);
    assert_eq!(props.len(), 1);
    assert_eq!(props[0].0, "year");
    match take_required_id_or_binding(&mut props, "from", &bindings) {
        Err(GrmError::Constraint(m)) => assert_eq!(m, "edge.create requires from=<id>"),
        _ => panic!("from is missing"),
    }
    let mut bad = vec![("to".to_string(), text("nobody"))];
    match take_required_id_or_binding(&mut bad, "to", &bindings) {
        Err(GrmError::Constraint(m)) => assert_eq!(m, "to must be an integer id"),
        _ => panic!("nobody is not bound"),
    }
    assert!(bad.is_empty());
}

#[test]
fn assignments_become_a_key_ordered_map_where_later_wins() {
    let bindings = Bindings::new();
    let terms = vec![term("name", "Ada"), term("age", "36"), term("name", "Grace")];
    let map = assignments_to_json(terms, &bindings, vec![None, None, None]).unwrap();
    assert_eq!(map.len(), 2);
    assert_eq!(map[0].0, "age");
    assert!(matches!(&map[0].1, JsonValue::Number(JsonNumber::PosInt(36))));
    assert_eq!(map[1].0, "name");
    assert!(matches!(&map[1].1, JsonValue::String(t) if t == "Grace"));
}

#[test]
fn endpoint_filters_resolve_bindings() {
    let mut bindings = Bindings::new();
    bindings.insert("keanu".to_string(), 4);
    let terms = vec![term("from", "keanu"), term("role", "keanu")];
    let map = terms_to_json_filters(terms.clone(), &bindings, true, vec![None, None]).unwrap();
    assert_eq!(map[0].0, "from");
    assert!(matches!(&map[0].1, JsonValue::Number(JsonNumber::PosInt(4))));
    assert!(matches!(&map[1].1, JsonValue::String(t) if t == "keanu"));
    let unresolved = terms_to_json_filters(terms, &bindings, false, vec![None, None]).unwrap();
    assert!(matches!(&unresolved[0].1, JsonValue::String(t) if t == "keanu"));
}

#[test]
fn stripping_a_script_comment_keeps_a_prefix_and_is_idempotent() {
    for line in [
        "node.create User name=Ada   # first user",
        "node.create User name=\"#1\" # quoted hash kept",
        "edge.find AUTHORED",
        "# whole line",
        "node.find User name='a\\'#b' #c",
    ] {
        let r = strip_service_script_comment(line);
        assert!(line.starts_with(&r));
        assert_eq!(strip_service_script_comment(&r), r);
        assert!(r == line || line[r.len()..].trim_start().starts_with('#'));
    }
    assert_eq!(strip_service_script_comment("node.create User name=Ada   # first user"), "node.create User name=Ada");
    assert_eq!(strip_service_script_comment("node.create User name=\"#1\" # x"), "node.create User name=\"#1\"");
    assert_eq!(strip_service_script_comment("# whole line"), "");
}

#[test]
fn session_launch_routes_by_backend_and_refuses_load_in_service_mode() {
    let grpc = Some("grpc".to_string());
    assert_eq!(session_launch(SessionStartup::Fresh, grpc.clone()).unwrap(), SessionLaunch::Service { script: None });
    assert_eq!(
        session_launch(SessionStartup::Script { path: "setup.grm".to_string() }, grpc.clone()).unwrap(),
        SessionLaunch::Service { script: Some("setup.grm".to_string()) }
    );
    let load = SessionStartup::Load {
        format: StartupLoadFormat::Binary,
        path: "s.bin".to_string(),
        autocommit: StartupAutocommit::On,
    };
    assert_eq!(
        session_launch(load.clone(), grpc).unwrap_err(),
        "--load is not supported in gRPC service mode; use GRM_SERVICE_WORKSPACE_MODE=open"
    );
    assert_eq!(
        session_launch(load, None).unwrap(),
        SessionLaunch::LocalLoad { format: StartupLoadFormat::Binary, path: "s.bin".to_string(), autocommit: LoadAutocommit::Binary }
    );
    let off = SessionStartup::Load { format: StartupLoadFormat::Json, path: "s.json".to_string(), autocommit: StartupAutocommit::Default };
    assert!(matches!(session_launch(off, Some("memory".to_string())).unwrap(), SessionLaunch::LocalLoad { autocommit: LoadAutocommit::Off, .. }));
    assert_eq!(session_launch(SessionStartup::Fresh, None).unwrap(), SessionLaunch::LocalFresh);
}
