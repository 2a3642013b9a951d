use grm_adapters::config::{AutocommitTarget, DurabilityFormat, SessionFileFormat, StartupOptions, TransportOptions};
use grm_adapters::error::GrmError;
use grm_adapters::server::{neo4j_backend_status, BackendMode};
use grm_adapters::service::{ServiceWorkspaceFormat, ServiceWorkspaceMode};
use grm_adapters::startup::{
    backend_mode, check_backend_startup, local_startup_steps, mcp_workspace_format, mcp_workspace_mode,
    optional_path_setting, schema_memory_step, EnvSetting, StartupStep,
};

fn options() -> StartupOptions {
    StartupOptions {
        transport: TransportOptions::Stdio,
        load_json: None,
        load_bin: None,
        import_json: None,
        autocommit: None,
        export_json: None,
    }
}

fn autocommit(path: &str) -> Option<AutocommitTarget> {
    Some(AutocommitTarget { format: SessionFileFormat::Binary, path: path.to_string() })
}

#[test]
fn backend_setting_selects_the_backend() {
    assert!(matches!(backend_mode(None), Ok(BackendMode::Local)));
    assert!(matches!(backend_mode(Some("in-memory".to_string())), Ok(BackendMode::Local)));
    assert!(matches!(backend_mode(Some("neo4j".to_string())), Ok(BackendMode::Neo4j)));
    assert!(matches!(backend_mode(Some("grpc".to_string())), Ok(BackendMode::Service)));
    match backend_mode(Some("sqlite".to_string())) {
        Err(GrmError::Constraint(m)) => {
            assert_eq!(m, "unsupported GRM_BACKEND 'sqlite'; expected 'neo4j', 'grpc', or omit it for in-memory")
        }
        other => panic!("unexpected {other:?}"),
    }
}

#[test]
fn remote_backends_refuse_startup_files() {
    let plain = options();
    assert!(check_backend_startup(BackendMode::Neo4j, &plain).is_ok());
    let with_export = StartupOptions { export_json: Some("out.json".to_string()), ..options() };
    assert!(check_backend_startup(BackendMode::Local, &with_export).is_ok());
    match check_backend_startup(BackendMode::Service, &with_export) {
        Err(GrmError::NotSupported(m)) => assert!(m.contains("workspace persistence is owned by the service")),
        other => panic!("unexpected {other:?}"),
    }
    match check_backend_startup(BackendMode::Neo4j, &with_export) {
        Err(GrmError::NotSupported(m)) => assert!(m.contains("Neo4j durability comes from Neo4j")),
        other => panic!("unexpected {other:?}"),
    }
}

#[test]
fn startup_files_load_in_order_then_checkpoint_the_autocommit_file() {
    let o = StartupOptions {
        load_json: Some("a.json".to_string()),
        import_json: Some("c.json".to_string()),
        autocommit: autocommit("wal.bin"),
        ..options()
    };
    let steps = local_startup_steps(&o, true);
    assert_eq!(steps.len(), 3);
    assert!(matches!(&steps[0], StartupStep::LoadJson(p) if p == "a.json"));
    assert!(matches!(&steps[1], StartupStep::ImportJson(p) if p == "c.json"));
    assert!(matches!(&steps[2], StartupStep::CheckpointDurable(DurabilityFormat::Binary, p) if p == "wal.bin"));
}

#[test]
fn an_existing_autocommit_file_is_recovered_when_nothing_else_is_loaded() {
    let o = StartupOptions { autocommit: autocommit("wal.bin"), ..options() };
    let recovered = local_startup_steps(&o, true);
    assert_eq!(recovered.len(), 1);
    assert!(matches!(&recovered[0], StartupStep::RecoverDurable(DurabilityFormat::Binary, p) if p == "wal.bin"));
    let fresh = local_startup_steps(&o, false);
    assert!(matches!(&fresh[0], StartupStep::CheckpointDurable(DurabilityFormat::Binary, _)));
    assert!(local_startup_steps(&options(), true).is_empty());
}

#[test]
fn service_workspace_settings_default_and_trim() {
    assert_eq!(mcp_workspace_mode(EnvSetting::Unset).unwrap(), ServiceWorkspaceMode::Open);
    assert_eq!(mcp_workspace_mode(EnvSetting::Value(" create ".to_string())).unwrap(), ServiceWorkspaceMode::Create);
    assert_eq!(mcp_workspace_format(EnvSetting::Unset).unwrap(), ServiceWorkspaceFormat::Binary);
    assert_eq!(mcp_workspace_format(EnvSetting::Value("json".to_string())).unwrap(), ServiceWorkspaceFormat::Json);
    match mcp_workspace_mode(EnvSetting::NotUnicode) {
        Err(GrmError::Constraint(m)) => assert_eq!(m, "GRM_SERVICE_WORKSPACE_MODE must be valid Unicode"),
        other => panic!("unexpected {other:?}"),
    }
    match mcp_workspace_format(EnvSetting::Value(" xml ".to_string())) {
        Err(GrmError::Constraint(m)) => {
            assert_eq!(m, "unsupported GRM_SERVICE_WORKSPACE_FORMAT 'xml'; expected 'json', 'bin', or 'binary'")
        }
        other => panic!("unexpected {other:?}"),
    }
}

#[test]
fn optional_path_settings_refuse_blank_and_non_unicode_values() {
    assert_eq!(optional_path_setting("GRM_SCHEMA_TEMPLATE", EnvSetting::Unset).unwrap(), None);
    assert_eq!(
        optional_path_setting("GRM_SCHEMA_TEMPLATE", EnvSetting::Value("schema.json".to_string())).unwrap(),
        Some("schema.json".to_string())
    );
    match optional_path_setting("GRM_SCHEMA_TEMPLATE", EnvSetting::Value("  ".to_string())) {
        Err(GrmError::Constraint(m)) => assert_eq!(m, "GRM_SCHEMA_TEMPLATE must not be empty when set"),
        other => panic!("unexpected {other:?}"),
    }
    match optional_path_setting("GRM_SCHEMA_TEMPLATE", EnvSetting::NotUnicode) {
        Err(GrmError::Constraint(m)) => assert_eq!(m, "GRM_SCHEMA_TEMPLATE must be valid Unicode"),
        other => panic!("unexpected {other:?}"),
    }
}

#[test]
fn neo4j_backend_status_reports_schema_template_metadata() {
    let status = neo4j_backend_status(2, 1, Some("project-memory-schema.json".to_string()), true);
    assert_eq!(status.mode, "neo4j");
    assert_eq!(status.runtime_schema_model_count, 3);
    assert!(!status.runtime_schema_empty);
    assert!(status.schema_template_loaded);
    assert!(status.schema_template_persistence_enabled);
    assert_eq!(status.schema_template_source.as_deref(), Some("project-memory-schema.json"));
    assert!(status.supported_tools.contains(&"grm_node_update"));
    assert!(status.supported_tools.contains(&"grm_edge_delete"));
}

#[test]
fn neo4j_backend_status_reports_absent_schema_template() {
    let status = neo4j_backend_status(0, 0, None, false);
    assert_eq!(status.mode, "neo4j");
    assert_eq!(status.runtime_schema_model_count, 0);
    assert!(status.runtime_schema_empty);
    assert!(!status.schema_template_loaded);
    assert!(!status.schema_template_persistence_enabled);
    assert_eq!(status.schema_template_source, None);
}

#[test]
fn schema_memory_is_recovered_when_its_file_exists_and_created_otherwise() {
    let (none, loaded) = schema_memory_step(None, true);
    assert!(none.is_none());
    assert!(!loaded);
    let (step, loaded) = schema_memory_step(Some("schema-memory.json".to_string()), false);
    assert!(matches!(step, Some(StartupStep::CheckpointDurable(DurabilityFormat::Json, ref p)) if p == "schema-memory.json"));
    assert!(!loaded);
    let (step, loaded) = schema_memory_step(Some("schema-memory.json".to_string()), true);
    assert!(matches!(step, Some(StartupStep::RecoverDurable(DurabilityFormat::Json, _))));
    assert!(loaded);
}
