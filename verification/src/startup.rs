//! How the MCP server starts: the backend the environment selects, the
//! startup options each backend accepts, what the in-process session does
//! with its startup files, and the service workspace settings.

use vstd::prelude::*;
use crate::config::{DurabilityFormat, SessionFileFormat, StartupOptions};
use crate::error::{ErrorView, GrmError};
use crate::server::{optional_path_value, BackendMode};
use crate::service::{workspace_format_spec, workspace_mode_spec, ServiceWorkspaceFormat, ServiceWorkspaceMode};
use crate::text::{concat, str_eq, trim, trim_str};

verus! {

/// An environment variable as the process found it.
#[derive(Debug, Clone)]
pub enum EnvSetting {
    Unset,
    /// Set, but not valid Unicode.
    NotUnicode,
    Value(String),
}

/// The backend a `GRM_BACKEND` value names.
pub open spec fn backend_keyword(s: Seq<char>) -> Option<BackendMode> {
    if s == "neo4j"@ {
        Some(BackendMode::Neo4j)
    } else if s == "grpc"@ {
        Some(BackendMode::Service)
    } else if s == "memory"@ || s == "inmemory"@ || s == "in-memory"@ {
        Some(BackendMode::Local)
    } else {
        None
    }
}

/// The backend selected by the `GRM_BACKEND` setting (read only when it is
/// valid Unicode): the in-process session when it is absent.
pub fn backend_mode(setting: Option<String>) -> (r: Result<BackendMode, GrmError>)
    ensures
        match setting {
            None => r == Ok::<BackendMode, GrmError>(BackendMode::Local),
            Some(s) => match backend_keyword(s@) {
                Some(m) => r == Ok::<BackendMode, GrmError>(m),
                None => r matches Err(e) && e@ == ErrorView::Constraint(
                    "unsupported GRM_BACKEND '"@ + s@ + "'; expected 'neo4j', 'grpc', or omit it for in-memory"@,
                ),
            },
        },
{
    match setting {
        None => Ok(BackendMode::Local),
        Some(s) => {
            let t = s.as_str();
            if str_eq(t, "neo4j") {
                Ok(BackendMode::Neo4j)
            } else if str_eq(t, "grpc") {
                Ok(BackendMode::Service)
            } else if str_eq(t, "memory") || str_eq(t, "inmemory") || str_eq(t, "in-memory") {
                Ok(BackendMode::Local)
            } else {
                Err(GrmError::Constraint(concat(
                    concat("unsupported GRM_BACKEND '", t).as_str(),
                    "'; expected 'neo4j', 'grpc', or omit it for in-memory",
                )))
            }
        },
    }
}

/// Whether the options name a file to load, import, autocommit to or
/// export to.
pub open spec fn has_file_options(o: StartupOptions) -> bool {
    o.load_json is Some || o.load_bin is Some || o.import_json is Some || o.autocommit is Some
        || o.export_json is Some
}

/// Why the Neo4j backend refuses startup files.
pub open spec fn neo4j_files_message() -> Seq<char> {
    "startup load/import/export/autocommit options are not supported in Neo4j MCP mode yet; Neo4j durability comes from Neo4j and runtime schema is session-local"@
}

/// Why the service backend refuses startup files.
pub open spec fn service_files_message() -> Seq<char> {
    "startup load/import/export/autocommit options are not supported in gRPC MCP mode; workspace persistence is owned by the service"@
}

/// Refuses startup files for a backend that keeps its own data: only the
/// in-process session loads, imports, autocommits or exports files.
pub fn check_backend_startup(mode: BackendMode, options: &StartupOptions) -> (r: Result<(), GrmError>)
    ensures
        mode == BackendMode::Local || !has_file_options(*options) ==> r is Ok,
        mode == BackendMode::Neo4j && has_file_options(*options) ==> (r matches Err(e) && e@
            == ErrorView::NotSupported(neo4j_files_message())),
        mode == BackendMode::Service && has_file_options(*options) ==> (r matches Err(e) && e@
            == ErrorView::NotSupported(service_files_message())),
{
    let has_files = options.load_json.is_some() || options.load_bin.is_some() || options.import_json.is_some()
        || options.autocommit.is_some() || options.export_json.is_some();
    if !has_files {
        return Ok(());
    }
    match mode {
        BackendMode::Local => Ok(()),
        BackendMode::Neo4j => Err(GrmError::NotSupported(String::from_str(
            "startup load/import/export/autocommit options are not supported in Neo4j MCP mode yet; Neo4j durability comes from Neo4j and runtime schema is session-local",
        ))),
        BackendMode::Service => Err(GrmError::NotSupported(String::from_str(
            "startup load/import/export/autocommit options are not supported in gRPC MCP mode; workspace persistence is owned by the service",
        ))),
    }
}

/// One thing the in-process session does with its startup files.
#[derive(Debug, Clone)]
pub enum StartupStep {
    LoadJson(String),
    LoadBinary(String),
    ImportJson(String),
    /// Replay the autocommit file into the session.
    RecoverDurable(DurabilityFormat, String),
    /// Write the session to the autocommit file.
    CheckpointDurable(DurabilityFormat, String),
}

/// `StartupStep` as plain values.
pub enum StartupStepView {
    LoadJson(Seq<char>),
    LoadBinary(Seq<char>),
    ImportJson(Seq<char>),
    RecoverDurable(DurabilityFormat, Seq<char>),
    CheckpointDurable(DurabilityFormat, Seq<char>),
}

impl View for StartupStep {
    type V = StartupStepView;

    open spec fn view(&self) -> StartupStepView {
        match self {
            StartupStep::LoadJson(p) => StartupStepView::LoadJson(p@),
            StartupStep::LoadBinary(p) => StartupStepView::LoadBinary(p@),
            StartupStep::ImportJson(p) => StartupStepView::ImportJson(p@),
            StartupStep::RecoverDurable(f, p) => StartupStepView::RecoverDurable(*f, p@),
            StartupStep::CheckpointDurable(f, p) => StartupStepView::CheckpointDurable(*f, p@),
        }
    }
}

/// The encoding of a session file format.
pub open spec fn file_durability(f: SessionFileFormat) -> DurabilityFormat {
    match f {
        SessionFileFormat::Json => DurabilityFormat::Json,
        SessionFileFormat::Binary => DurabilityFormat::Binary,
    }
}

/// Whether the options name a file that fills the session at startup.
pub open spec fn has_startup_source(o: StartupOptions) -> bool {
    o.load_json is Some || o.load_bin is Some || o.import_json is Some
}

/// The startup steps of the in-process session: load the JSON file, then
/// the binary file, then import the JSON interchange file, each when named;
/// then, with an autocommit file, replay it when nothing else filled the
/// session and it exists, and otherwise write the session to it.
pub open spec fn startup_steps(o: StartupOptions, autocommit_file_exists: bool) -> Seq<StartupStepView> {
    load_json_steps(o) + load_bin_steps(o) + import_steps(o) + match o.autocommit {
        Some(t) => if !has_startup_source(o) && autocommit_file_exists {
            seq![StartupStepView::RecoverDurable(file_durability(t.format), t.path@)]
        } else {
            seq![StartupStepView::CheckpointDurable(file_durability(t.format), t.path@)]
        },
        None => Seq::empty(),
    }
}

/// Loading the JSON session file, when one is named.
pub open spec fn load_json_steps(o: StartupOptions) -> Seq<StartupStepView> {
    match o.load_json {
        Some(p) => seq![StartupStepView::LoadJson(p@)],
        None => Seq::empty(),
    }
}

/// Loading the binary session file, when one is named.
pub open spec fn load_bin_steps(o: StartupOptions) -> Seq<StartupStepView> {
    match o.load_bin {
        Some(p) => seq![StartupStepView::LoadBinary(p@)],
        None => Seq::empty(),
    }
}

/// Importing the JSON interchange file, when one is named.
pub open spec fn import_steps(o: StartupOptions) -> Seq<StartupStepView> {
    match o.import_json {
        Some(p) => seq![StartupStepView::ImportJson(p@)],
        None => Seq::empty(),
    }
}

/// The views of a list of steps.
pub open spec fn step_views(v: Seq<StartupStep>) -> Seq<StartupStepView> {
    v.map_values(|s: StartupStep| s@)
}

/// What the in-process session does with its startup files, in order
/// (`autocommit_file_exists` tells whether the autocommit file is on disk).
pub fn local_startup_steps(options: &StartupOptions, autocommit_file_exists: bool) -> (r: Vec<StartupStep>)
    ensures
        step_views(r@) == startup_steps(*options, autocommit_file_exists),
{
    let mut r: Vec<StartupStep> = Vec::new();
    match &options.load_json {
        Some(p) => r.push(StartupStep::LoadJson(p.clone())),
        None => {},
    }
    assert(step_views(r@) =~= load_json_steps(*options));
    match &options.load_bin {
        Some(p) => r.push(StartupStep::LoadBinary(p.clone())),
        None => {},
    }
    assert(step_views(r@) =~= load_json_steps(*options) + load_bin_steps(*options));
    match &options.import_json {
        Some(p) => r.push(StartupStep::ImportJson(p.clone())),
        None => {},
    }
    assert(step_views(r@) =~= load_json_steps(*options) + load_bin_steps(*options) + import_steps(*options));
    let has_source = options.load_json.is_some() || options.load_bin.is_some() || options.import_json.is_some();
    match &options.autocommit {
        Some(t) => {
            let format = t.format.durability_format();
            if !has_source && autocommit_file_exists {
                r.push(StartupStep::RecoverDurable(format, t.path.clone()));
            } else {
                r.push(StartupStep::CheckpointDurable(format, t.path.clone()));
            }
        },
        None => {},
    }
    assert(step_views(r@) =~= startup_steps(*options, autocommit_file_exists));
    r
}

/// What the Neo4j backend does with its schema file (`GRM_SCHEMA_TEMPLATE`)
/// at startup, and whether the runtime schema then comes from it: an
/// existing file is replayed, a missing one is created from the empty
/// schema; both are JSON session files.
pub fn schema_memory_step(source: Option<String>, file_exists: bool) -> (r: (Option<StartupStep>, bool))
    ensures
        match source {
            None => r.0 is None && !r.1,
            Some(p) => if file_exists {
                (r.0 matches Some(s) && s@ == StartupStepView::RecoverDurable(DurabilityFormat::Json, p@)) && r.1
            } else {
                (r.0 matches Some(s) && s@ == StartupStepView::CheckpointDurable(DurabilityFormat::Json, p@)) && !r.1
            },
        },
{
    match source {
        None => (None, false),
        Some(p) => if file_exists {
            (Some(StartupStep::RecoverDurable(DurabilityFormat::Json, p)), true)
        } else {
            (Some(StartupStep::CheckpointDurable(DurabilityFormat::Json, p)), false)
        },
    }
}

/// A workspace setting that is not valid Unicode.
pub open spec fn not_unicode_message(name: Seq<char>) -> Seq<char> {
    name + " must be valid Unicode"@
}

/// The MCP server's workspace mode from `GRM_SERVICE_WORKSPACE_MODE`:
/// `open` when unset, otherwise the trimmed value's mode.
pub fn mcp_workspace_mode(setting: EnvSetting) -> (r: Result<ServiceWorkspaceMode, GrmError>)
    ensures
        setting is Unset ==> r == Ok::<ServiceWorkspaceMode, GrmError>(ServiceWorkspaceMode::Open),
        setting is NotUnicode ==> (r matches Err(e) && e@ == ErrorView::Constraint(
            not_unicode_message("GRM_SERVICE_WORKSPACE_MODE"@),
        )),
        setting matches EnvSetting::Value(v) ==> match workspace_mode_spec(trim(v@)) {
            Some(x) => r == Ok::<ServiceWorkspaceMode, GrmError>(x),
            None => r matches Err(e) && e@ == ErrorView::Constraint(
                "unsupported GRM_SERVICE_WORKSPACE_MODE '"@ + trim(v@) + "'; expected 'create' or 'open'"@,
            ),
        },
{
    match setting {
        EnvSetting::Unset => Ok(ServiceWorkspaceMode::Open),
        EnvSetting::NotUnicode => Err(GrmError::Constraint(concat("GRM_SERVICE_WORKSPACE_MODE", " must be valid Unicode"))),
        EnvSetting::Value(v) => {
            let t = trim_str(v.as_str());
            ServiceWorkspaceMode::parse(t.as_str())
        },
    }
}

/// The MCP server's workspace format from `GRM_SERVICE_WORKSPACE_FORMAT`:
/// binary when unset, otherwise the trimmed value's format.
pub fn mcp_workspace_format(setting: EnvSetting) -> (r: Result<ServiceWorkspaceFormat, GrmError>)
    ensures
        setting is Unset ==> r == Ok::<ServiceWorkspaceFormat, GrmError>(ServiceWorkspaceFormat::Binary),
        setting is NotUnicode ==> (r matches Err(e) && e@ == ErrorView::Constraint(
            not_unicode_message("GRM_SERVICE_WORKSPACE_FORMAT"@),
        )),
        setting matches EnvSetting::Value(v) ==> match workspace_format_spec(trim(v@)) {
            Some(x) => r == Ok::<ServiceWorkspaceFormat, GrmError>(x),
            None => r matches Err(e) && e@ == ErrorView::Constraint(
                "unsupported GRM_SERVICE_WORKSPACE_FORMAT '"@ + trim(v@) + "'; expected 'json', 'bin', or 'binary'"@,
            ),
        },
{
    match setting {
        EnvSetting::Unset => Ok(ServiceWorkspaceFormat::Binary),
        EnvSetting::NotUnicode => Err(GrmError::Constraint(concat("GRM_SERVICE_WORKSPACE_FORMAT", " must be valid Unicode"))),
        EnvSetting::Value(v) => {
            let t = trim_str(v.as_str());
            ServiceWorkspaceFormat::parse(t.as_str())
        },
    }
}

/// An optional path setting: unset is none, a value that is not Unicode or
/// is blank is refused.
pub fn optional_path_setting(name: &str, setting: EnvSetting) -> (r: Result<Option<String>, GrmError>)
    ensures
        match setting {
            EnvSetting::Unset => r matches Ok(x) && x is None,
            EnvSetting::NotUnicode => r matches Err(e) && e@ == ErrorView::Constraint(not_unicode_message(name@)),
            EnvSetting::Value(v) => if trim(v@).len() == 0 {
                r matches Err(e) && e@ == ErrorView::Constraint(name@ + " must not be empty when set"@)
            } else {
                r matches Ok(Some(x)) && x@ == v@
            },
        },
{
    match setting {
        EnvSetting::Unset => optional_path_value(name, None),
        EnvSetting::NotUnicode => Err(GrmError::Constraint(concat(name, " must be valid Unicode"))),
        EnvSetting::Value(v) => optional_path_value(name, Some(v)),
    }
}

} // verus!
