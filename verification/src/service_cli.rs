//! The service-backed command-line session around its commands: the
//! workspace settings it starts from, the banner it prints, the script lines
//! it runs, and the session summary.

use vstd::prelude::*;
use crate::cli::{CliColors, TableHeaderKind, cli_table_lines, table_lines, table_fits, arg_texts, row_texts, green, blue, strip_comment_spec, strip_service_script_comment};
use crate::config::{DurabilityFormat, texts};
use crate::error::{GrmError, ErrorView};
use crate::service::{ServiceWorkspaceMode, workspace_mode_spec, workspace_format_spec, ServiceWorkspaceFormat};
use crate::session::{service_mode_display, durability_format_display};
use crate::text::{concat, trim, trim_str, nat_text, usize_text};

verus! {

/// The workspace mode of a service session: `GRM_SERVICE_WORKSPACE_MODE`,
/// `open` when it is not set.
pub fn cli_workspace_mode(setting: Option<String>) -> (r: Result<ServiceWorkspaceMode, GrmError>)
    ensures
        match setting {
            None => r == Ok::<ServiceWorkspaceMode, GrmError>(ServiceWorkspaceMode::Open),
            Some(raw) => match workspace_mode_spec(raw@) {
                Some(m) => r == Ok::<ServiceWorkspaceMode, GrmError>(m),
                None => r matches Err(e) && e@ == ErrorView::Constraint(
                    "unsupported GRM_SERVICE_WORKSPACE_MODE '"@ + raw@ + "'; expected 'create' or 'open'"@,
                ),
            },
        },
{
    match setting {
        None => Ok(ServiceWorkspaceMode::Open),
        Some(raw) => ServiceWorkspaceMode::parse(raw.as_str()),
    }
}

/// The persistence format of a service session and whether it was chosen
/// explicitly: `GRM_SERVICE_WORKSPACE_FORMAT`, binary when it is not set.
pub fn cli_workspace_format(setting: Option<String>) -> (r: Result<(DurabilityFormat, bool), GrmError>)
    ensures
        match setting {
            None => r == Ok::<(DurabilityFormat, bool), GrmError>((DurabilityFormat::Binary, false)),
            Some(raw) => match workspace_format_spec(raw@) {
                Some(ServiceWorkspaceFormat::Json) => r == Ok::<(DurabilityFormat, bool), GrmError>((DurabilityFormat::Json, true)),
                Some(ServiceWorkspaceFormat::Binary) => r == Ok::<(DurabilityFormat, bool), GrmError>((DurabilityFormat::Binary, true)),
                None => r matches Err(e) && e@ == ErrorView::Constraint(
                    "unsupported GRM_SERVICE_WORKSPACE_FORMAT '"@ + raw@ + "'; expected 'json', 'bin', or 'binary'"@,
                ),
            },
        },
{
    match setting {
        None => Ok((DurabilityFormat::Binary, false)),
        Some(raw) => match ServiceWorkspaceFormat::parse(raw.as_str()) {
            Ok(ServiceWorkspaceFormat::Json) => Ok((DurabilityFormat::Json, true)),
            Ok(ServiceWorkspaceFormat::Binary) => Ok((DurabilityFormat::Binary, true)),
            Err(e) => Err(e),
        },
    }
}

/// The transport shown when a service session starts.
pub open spec fn transport_text(tls_enabled: bool, client_certificate_configured: bool) -> Seq<char> {
    if client_certificate_configured {
        "TLS with client certificate"@
    } else if tls_enabled {
        "TLS"@
    } else {
        "insecure local gRPC"@
    }
}

/// The transport shown when a service session starts.
pub fn cli_transport_label(tls_enabled: bool, client_certificate_configured: bool) -> (r: &'static str)
    ensures
        r@ == transport_text(tls_enabled, client_certificate_configured),
{
    if client_certificate_configured {
        "TLS with client certificate"
    } else if tls_enabled {
        "TLS"
    } else {
        "insecure local gRPC"
    }
}

/// The word shown for a workspace mode.
pub open spec fn mode_text(mode: ServiceWorkspaceMode) -> Seq<char> {
    match mode {
        ServiceWorkspaceMode::Create => "create"@,
        ServiceWorkspaceMode::Open => "open"@,
    }
}

/// The line naming the persistence format and whether it was chosen.
pub open spec fn persistence_line(format: DurabilityFormat, explicit: bool) -> Seq<char> {
    "Persistence format: "@ + (match format {
        DurabilityFormat::Json => "json"@,
        DurabilityFormat::Binary => "binary"@,
    }) + if explicit {
        " (explicit)"@
    } else {
        " (default)"@
    }
}

fn persistence_line_exec(format: DurabilityFormat, explicit: bool) -> (r: String)
    ensures
        r@ == persistence_line(format, explicit),
{
    let s = concat("Persistence format: ", durability_format_display(format));
    concat(s.as_str(), if explicit { " (explicit)" } else { " (default)" })
}

/// The lines printed when a service session is ready.
pub open spec fn banner_text(
    endpoint: Seq<char>,
    workspace_ref: Seq<char>,
    tls_enabled: bool,
    client_certificate_configured: bool,
    mode: ServiceWorkspaceMode,
    format: DurabilityFormat,
    format_explicit: bool,
) -> Seq<Seq<char>> {
    seq![
        "Welcome to GRM-RS CLI."@,
        "Service-backed workspace session ready."@,
        "Backend: gRPC workspace storage"@,
        "Endpoint: "@ + endpoint,
        "Transport: "@ + transport_text(tls_enabled, client_certificate_configured),
        "Workspace: "@ + workspace_ref,
        "Mode: "@ + mode_text(mode),
        persistence_line(format, format_explicit),
        "Scope: ExecuteWorkspace. Unsupported commands stay local-only or unavailable in this mode."@,
    ]
}

/// The lines printed when a service session is ready.
pub fn service_banner_lines(
    endpoint: &str,
    workspace_ref: &str,
    tls_enabled: bool,
    client_certificate_configured: bool,
    mode: ServiceWorkspaceMode,
    format: DurabilityFormat,
    format_explicit: bool,
) -> (r: Vec<String>)
    ensures
        texts(r@) == banner_text(endpoint@, workspace_ref@, tls_enabled, client_certificate_configured, mode, format, format_explicit),
{
    let mut r: Vec<String> = Vec::new();
    r.push(String::from_str("Welcome to GRM-RS CLI."));
    r.push(String::from_str("Service-backed workspace session ready."));
    r.push(String::from_str("Backend: gRPC workspace storage"));
    r.push(concat("Endpoint: ", endpoint));
    r.push(concat("Transport: ", cli_transport_label(tls_enabled, client_certificate_configured)));
    r.push(concat("Workspace: ", workspace_ref));
    r.push(concat("Mode: ", service_mode_display(mode)));
    r.push(persistence_line_exec(format, format_explicit));
    r.push(String::from_str("Scope: ExecuteWorkspace. Unsupported commands stay local-only or unavailable in this mode."));
    assert(texts(r@) =~= banner_text(endpoint@, workspace_ref@, tls_enabled, client_certificate_configured, mode, format, format_explicit));
    r
}

/// The command a service script line holds: the line without its comment,
/// trimmed; none when nothing is left.
pub open spec fn script_command(line: Seq<char>) -> Option<Seq<char>> {
    let t = trim(strip_comment_spec(line));
    if t.len() == 0 {
        None
    } else {
        Some(t)
    }
}

/// The command a service script line holds, if any.
pub fn service_script_command(line: &str) -> (r: Option<String>)
    ensures
        match script_command(line@) {
            Some(t) => r matches Some(x) && x@ == t,
            None => r is None,
        },
{
    let stripped = strip_service_script_comment(line);
    let t = trim_str(stripped.as_str());
    if t.as_str().unicode_len() == 0 {
        None
    } else {
        Some(t)
    }
}

/// The sum of the counts.
pub open spec fn total(counts: Seq<usize>) -> nat
    decreases counts.len(),
{
    if counts.len() == 0 {
        0
    } else {
        total(counts.drop_last()) + (counts.last() as nat)
    }
}

/// The names, coloured as types and joined by `, `.
pub open spec fn joined_types(names: Seq<String>, colors: CliColors) -> Seq<char>
    decreases names.len(),
{
    if names.len() == 0 {
        Seq::empty()
    } else if names.len() == 1 {
        colors.wrap_spec(names[0]@, green())
    } else {
        joined_types(names.drop_last(), colors) + ", "@ + colors.wrap_spec(names.last()@, green())
    }
}

fn joined_types_exec(names: &Vec<String>, colors: &CliColors) -> (r: String)
    ensures
        r@ == joined_types(names@, *colors),
{
    let mut s = String::new();
    let mut i: usize = 0;
    while i < names.len()
        invariant
            i <= names.len(),
            s@ == joined_types(names@.take(i as int), *colors),
        decreases names.len() - i,
    {
        let t = colors.type_label(names[i].as_str());
        assert(names@.take(i as int + 1).drop_last() =~= names@.take(i as int));
        if i == 0 {
            s = t;
        } else {
            s = concat(concat(s.as_str(), ", ").as_str(), t.as_str());
        }
        i = i + 1;
    }
    assert(names@.take(i as int) =~= names@);
    s
}

/// The `Types defined:` lines of the summary.
pub open spec fn types_lines(nodes: Seq<String>, edges: Seq<String>, colors: CliColors) -> Seq<Seq<char>> {
    if nodes.len() == 0 && edges.len() == 0 {
        seq!["  none"@]
    } else {
        (if nodes.len() > 0 {
            seq!["  nodes: "@ + joined_types(nodes, colors)]
        } else {
            Seq::empty()
        }) + (if edges.len() > 0 {
            seq!["  links: "@ + joined_types(edges, colors)]
        } else {
            Seq::empty()
        })
    }
}

/// A row of the `By type:` table: the kind, the coloured type and the count.
pub open spec fn count_row(kind: Seq<char>, name: Seq<char>, count: usize, colors: CliColors) -> Seq<Seq<char>> {
    seq![kind, colors.wrap_spec(name, green()), nat_text(count as nat)]
}

/// The rows of the models that hold records, in order.
pub open spec fn count_rows(kind: Seq<char>, names: Seq<String>, counts: Seq<usize>, colors: CliColors) -> Seq<Seq<Seq<char>>>
    decreases names.len(),
{
    if names.len() == 0 {
        Seq::empty()
    } else {
        let n = names.len() - 1;
        count_rows(kind, names.drop_last(), counts.take(n), colors) + if counts[n] > 0 {
            seq![count_row(kind, names[n]@, counts[n], colors)]
        } else {
            Seq::<Seq<Seq<char>>>::empty()
        }
    }
}

/// The header of the `By type:` table.
pub open spec fn count_headers() -> Seq<Seq<char>> {
    seq!["kind"@, "type"@, "count"@]
}

/// The header kinds of the `By type:` table.
pub open spec fn count_header_kinds() -> Seq<TableHeaderKind> {
    seq![TableHeaderKind::Plain, TableHeaderKind::Type, TableHeaderKind::Property]
}

/// The information a session summary shows about its session.
#[derive(Debug, Clone)]
pub struct SummaryInfo {
    pub endpoint: String,
    pub workspace_id: String,
    pub mode: ServiceWorkspaceMode,
    pub format: DurabilityFormat,
    pub format_explicit: bool,
}

/// The lines of `session.describe`: the session, the defined types, the
/// stored rows per type (models with no rows left out of the table), and the
/// traversal subset when `verbose` is set.
pub open spec fn summary_text(
    info: SummaryInfo,
    node_models: Seq<String>,
    node_counts: Seq<usize>,
    edge_models: Seq<String>,
    edge_counts: Seq<usize>,
    verbose: bool,
    colors: CliColors,
) -> Seq<Seq<char>> {
    let rows = count_rows("node"@, node_models, node_counts, colors) + count_rows("edge"@, edge_models, edge_counts, colors);
    seq![
        "Session Summary"@,
        "Backend: gRPC workspace storage"@,
        "Endpoint: "@ + info.endpoint@,
        "Workspace: "@ + info.workspace_id@,
        "Mode: "@ + mode_text(info.mode),
        persistence_line(info.format, info.format_explicit),
        "Scope: ExecuteWorkspace"@,
        "Types defined:"@,
    ] + types_lines(node_models, edge_models, colors) + seq![
        "Stored rows: "@ + nat_text(total(node_counts)) + " nodes, "@ + nat_text(total(edge_counts)) + " edges"@,
        "By type:"@,
    ] + (if rows.len() == 0 {
        seq!["  none"@]
    } else {
        table_lines(count_headers(), count_header_kinds(), rows, colors)
    }) + seq!["Autocommit: service-managed local workspace"@] + if verbose {
        seq![
            "Supported traversal subset: node.find via/end/edge filters with return=root|end|edge, plus session.explain/profile for node.find and edge.find. Unsupported in gRPC CLI mode: local session save/load/import/export, transactions, free-form query parity, and session.indexes"@,
        ]
    } else {
        Seq::<Seq<char>>::empty()
    }
}


/// The decimal text of a number is short.
pub proof fn lemma_nat_text_short(n: nat)
    ensures
        nat_text(n).len() <= n / 2 + 1,
    decreases n,
{
    if n >= 10 {
        lemma_nat_text_short(n / 10);
        assert((n / 10) / 2 + 2 <= n / 2 + 1) by (nonlinear_arith)
            requires
                n >= 10,
        ;
    }
}

/// A longer prefix of counts never sums to less.
pub proof fn lemma_total_prefix(counts: Seq<usize>, i: int)
    requires
        0 <= i <= counts.len(),
    ensures
        total(counts.take(i)) <= total(counts),
    decreases counts.len() - i,
{
    if i < counts.len() {
        lemma_total_prefix(counts, i + 1);
        assert(counts.take(i + 1).drop_last() =~= counts.take(i));
    } else {
        assert(counts.take(i) =~= counts);
    }
}

/// Every cell of the rows leaves room for the two padding spaces.
pub open spec fn cells_fit(rows: Seq<Seq<Seq<char>>>) -> bool {
    forall|r: int, c: int| 0 <= r < rows.len() && 0 <= c < rows[r].len() ==> (#[trigger] rows[r][c]).len() + 2 <= usize::MAX
}

/// Names short enough to be shown in a table.
pub open spec fn names_fit(names: Seq<String>) -> bool {
    forall|i: int| 0 <= i < names.len() ==> (#[trigger] names[i])@.len() + 16 <= usize::MAX
}

/// Sums the counts.
fn total_exec(counts: &Vec<usize>) -> (t: usize)
    requires
        total(counts@) <= usize::MAX,
    ensures
        t == total(counts@),
{
    let mut t: usize = 0;
    let mut i: usize = 0;
    while i < counts.len()
        invariant
            i <= counts.len(),
            total(counts@) <= usize::MAX,
            t == total(counts@.take(i as int)),
        decreases counts.len() - i,
    {
        proof {
            assert(counts@.take(i as int + 1).drop_last() =~= counts@.take(i as int));
            lemma_total_prefix(counts@, i as int + 1);
        }
        t = t + counts[i];
        i = i + 1;
    }
    assert(counts@.take(i as int) =~= counts@);
    t
}

/// Appends the rows of the models that hold records.
fn push_count_rows(rows: &mut Vec<Vec<String>>, kind: &str, names: &Vec<String>, counts: &Vec<usize>, colors: &CliColors)
    requires
        names.len() == counts.len(),
        names_fit(names@),
        kind@.len() <= 4,
        cells_fit(row_texts(old(rows)@)),
        forall|k: int| 0 <= k < old(rows)@.len() ==> (#[trigger] old(rows)@[k]).len() == 3,
    ensures
        row_texts(final(rows)@) == row_texts(old(rows)@) + count_rows(kind@, names@, counts@, *colors),
        cells_fit(row_texts(final(rows)@)),
        forall|k: int| 0 <= k < final(rows)@.len() ==> (#[trigger] final(rows)@[k]).len() == 3,
{
    let ghost start = row_texts(rows@);
    let mut i: usize = 0;
    while i < names.len()
        invariant
            names.len() == counts.len(),
            names_fit(names@),
            kind@.len() <= 4,
            i <= names.len(),
            row_texts(rows@) == start + count_rows(kind@, names@.take(i as int), counts@.take(i as int), *colors),
            cells_fit(row_texts(rows@)),
            forall|k: int| 0 <= k < rows@.len() ==> (#[trigger] rows@[k]).len() == 3,
        decreases names.len() - i,
    {
        proof {
            let nt = names@.take(i as int + 1);
            let ct = counts@.take(i as int + 1);
            assert(nt.drop_last() =~= names@.take(i as int));
            assert(ct.take(i as int) =~= counts@.take(i as int));
            assert(nt[i as int] == names@[i as int]);
            assert(ct[i as int] == counts@[i as int]);
        }
        if counts[i] > 0 {
            let mut row: Vec<String> = Vec::new();
            row.push(String::from_str(kind));
            row.push(colors.type_label(names[i].as_str()));
            row.push(usize_text(counts[i]));
            let ghost before = rows@;
            proof {
                lemma_nat_text_short(counts[i as int] as nat);
                reveal_strlit("\x1b[32m");
                reveal_strlit("\x1b[0m");
                assert(names@[i as int]@.len() + 16 <= usize::MAX);
                assert(arg_texts(row@) =~= count_row(kind@, names@[i as int]@, counts@[i as int], *colors));
            }
            rows.push(row);
            proof {
                assert(row_texts(rows@) =~= row_texts(before).push(arg_texts(row@)));
                assert forall|r: int, c: int| 0 <= r < row_texts(rows@).len() && 0 <= c < row_texts(rows@)[r].len()
                    implies (#[trigger] row_texts(rows@)[r][c]).len() + 2 <= usize::MAX by {
                    if r < before.len() {
                        assert(row_texts(rows@)[r] == row_texts(before)[r]);
                    }
                }
                assert(row_texts(rows@) =~= start + count_rows(kind@, names@.take(i as int + 1), counts@.take(i as int + 1), *colors));
            }
        } else {
            proof {
                assert(row_texts(rows@) =~= start + count_rows(kind@, names@.take(i as int + 1), counts@.take(i as int + 1), *colors));
            }
        }
        i = i + 1;
    }
    proof {
        assert(names@.take(i as int) =~= names@);
        assert(counts@.take(i as int) =~= counts@);
    }
}

/// The lines of `session.describe` for the given schema and row counts.
#[verifier::rlimit(40)]
pub fn summary_lines(
    info: &SummaryInfo,
    node_models: &Vec<String>,
    node_counts: &Vec<usize>,
    edge_models: &Vec<String>,
    edge_counts: &Vec<usize>,
    verbose: bool,
    colors: &CliColors,
) -> (r: Vec<String>)
    requires
        node_models.len() == node_counts.len(),
        edge_models.len() == edge_counts.len(),
        total(node_counts@) <= usize::MAX,
        total(edge_counts@) <= usize::MAX,
        names_fit(node_models@),
        names_fit(edge_models@),
    ensures
        texts(r@) == summary_text(*info, node_models@, node_counts@, edge_models@, edge_counts@, verbose, *colors),
{
    let mut r: Vec<String> = Vec::new();
    r.push(String::from_str("Session Summary"));
    r.push(String::from_str("Backend: gRPC workspace storage"));
    r.push(concat("Endpoint: ", info.endpoint.as_str()));
    r.push(concat("Workspace: ", info.workspace_id.as_str()));
    r.push(concat("Mode: ", service_mode_display(info.mode)));
    r.push(persistence_line_exec(info.format, info.format_explicit));
    r.push(String::from_str("Scope: ExecuteWorkspace"));
    r.push(String::from_str("Types defined:"));
    let ghost head = texts(r@);
    if node_models.len() == 0 && edge_models.len() == 0 {
        r.push(String::from_str("  none"));
    } else {
        if node_models.len() > 0 {
            r.push(concat("  nodes: ", joined_types_exec(node_models, colors).as_str()));
        }
        if edge_models.len() > 0 {
            r.push(concat("  links: ", joined_types_exec(edge_models, colors).as_str()));
        }
    }
    assert(texts(r@) =~= head + types_lines(node_models@, edge_models@, *colors));
    let node_total = total_exec(node_counts);
    let edge_total = total_exec(edge_counts);
    let mut stored = concat("Stored rows: ", usize_text(node_total).as_str());
    stored = concat(stored.as_str(), " nodes, ");
    stored = concat(stored.as_str(), usize_text(edge_total).as_str());
    stored = concat(stored.as_str(), " edges");
    r.push(stored);
    r.push(String::from_str("By type:"));
    let ghost mid = texts(r@);
    let mut rows: Vec<Vec<String>> = Vec::new();
    proof {
        reveal_strlit("node");
        reveal_strlit("edge");
    }
    push_count_rows(&mut rows, "node", node_models, node_counts, colors);
    push_count_rows(&mut rows, "edge", edge_models, edge_counts, colors);
    let ghost all_rows = count_rows("node"@, node_models@, node_counts@, *colors) + count_rows("edge"@, edge_models@, edge_counts@, *colors);
    assert(row_texts(rows@) =~= all_rows);
    if rows.len() == 0 {
        r.push(String::from_str("  none"));
        assert(texts(r@) =~= mid + seq!["  none"@]);
    } else {
        let mut headers: Vec<String> = Vec::new();
        headers.push(String::from_str("kind"));
        headers.push(String::from_str("type"));
        headers.push(String::from_str("count"));
        let mut kinds: Vec<TableHeaderKind> = Vec::new();
        kinds.push(TableHeaderKind::Plain);
        kinds.push(TableHeaderKind::Type);
        kinds.push(TableHeaderKind::Property);
        proof {
            reveal_strlit("kind");
            reveal_strlit("type");
            reveal_strlit("count");
            vstd::utf8::is_ascii_chars_encode_utf8("kind"@);
            vstd::utf8::is_ascii_chars_encode_utf8("type"@);
            vstd::utf8::is_ascii_chars_encode_utf8("count"@);
            assert(arg_texts(headers@) =~= count_headers());
            assert(kinds@ =~= count_header_kinds());
        }
        let mut table = cli_table_lines(&headers, &kinds, &rows, colors);
        let ghost tl = texts(table@);
        let ghost before = texts(r@);
        r.append(&mut table);
        assert(texts(r@) =~= before + tl);
    }
    let ghost pre_tail = texts(r@);
    r.push(String::from_str("Autocommit: service-managed local workspace"));
    if verbose {
        r.push(String::from_str("Supported traversal subset: node.find via/end/edge filters with return=root|end|edge, plus session.explain/profile for node.find and edge.find. Unsupported in gRPC CLI mode: local session save/load/import/export, transactions, free-form query parity, and session.indexes"));
    }
    assert(texts(r@) =~= summary_text(*info, node_models@, node_counts@, edge_models@, edge_counts@, verbose, *colors));
    r
}


/// A node model as the service lists it.
#[derive(Debug, Clone)]
pub struct ServiceNodeModel {
    pub name: String,
    pub id_field_name: String,
}

/// A link model as the service lists it.
#[derive(Debug, Clone)]
pub struct ServiceEdgeModel {
    pub name: String,
    pub id_field_name: String,
    pub from_model: String,
    pub to_model: String,
}

/// The schema table row of a node model.
pub open spec fn node_schema_row(m: ServiceNodeModel, colors: CliColors) -> Seq<Seq<char>> {
    seq!["node"@, colors.wrap_spec(m.name@, green()), colors.wrap_spec(m.id_field_name@, blue()), Seq::empty()]
}

/// The schema table row of a link model.
pub open spec fn edge_schema_row(m: ServiceEdgeModel, colors: CliColors) -> Seq<Seq<char>> {
    seq![
        "edge"@,
        colors.wrap_spec(m.name@, green()),
        colors.wrap_spec(m.id_field_name@, blue()),
        colors.wrap_spec(m.from_model@, green()) + " -> "@ + colors.wrap_spec(m.to_model@, green()),
    ]
}

/// The header of the schema table.
pub open spec fn schema_headers() -> Seq<Seq<char>> {
    seq!["kind"@, "type"@, "id field"@, "endpoints"@]
}

/// The header kinds of the schema table.
pub open spec fn schema_header_kinds() -> Seq<TableHeaderKind> {
    seq![TableHeaderKind::Plain, TableHeaderKind::Type, TableHeaderKind::Property, TableHeaderKind::Plain]
}

/// The lines of `model.list` and `link.list`: a heading, then a table of
/// the node models and the link models, or `none`.
pub open spec fn schema_text(nodes: Seq<ServiceNodeModel>, edges: Seq<ServiceEdgeModel>, colors: CliColors) -> Seq<Seq<char>> {
    let rows = Seq::new(nodes.len(), |i: int| node_schema_row(nodes[i], colors)) + Seq::new(
        edges.len(),
        |i: int| edge_schema_row(edges[i], colors),
    );
    seq!["Service Schema"@] + if rows.len() == 0 {
        seq!["  none"@]
    } else {
        table_lines(schema_headers(), schema_header_kinds(), rows, colors)
    }
}

/// Text short enough to be shown in a table cell.
pub open spec fn short(t: Seq<char>) -> bool {
    t.len() + 64 <= usize::MAX
}

/// The lines of `model.list` and `link.list`.
pub fn service_schema_lines(nodes: &Vec<ServiceNodeModel>, edges: &Vec<ServiceEdgeModel>, colors: &CliColors) -> (r: Vec<String>)
    requires
        forall|i: int| 0 <= i < nodes.len() ==> short((#[trigger] nodes@[i]).name@) && short(nodes@[i].id_field_name@),
        forall|i: int| 0 <= i < edges.len() ==> short((#[trigger] edges@[i]).name@) && short(edges@[i].id_field_name@)
            && (edges@[i].from_model@.len() + edges@[i].to_model@.len()) * 2 + 64 <= usize::MAX,
    ensures
        texts(r@) == schema_text(nodes@, edges@, *colors),
{
    proof {
        reveal_strlit("\x1b[32m");
        reveal_strlit("\x1b[34m");
        reveal_strlit("\x1b[0m");
        reveal_strlit("node");
        reveal_strlit("edge");
        reveal_strlit(" -> ");
        reveal_strlit("");
    }
    let ghost want = Seq::new(nodes@.len(), |i: int| node_schema_row(nodes@[i], *colors)) + Seq::new(
        edges@.len(),
        |i: int| edge_schema_row(edges@[i], *colors),
    );
    let mut rows: Vec<Vec<String>> = Vec::new();
    let mut i: usize = 0;
    while i < nodes.len()
        invariant
            want == Seq::new(nodes@.len(), |i: int| node_schema_row(nodes@[i], *colors)) + Seq::new(
                edges@.len(),
                |i: int| edge_schema_row(edges@[i], *colors),
            ),
            i <= nodes.len(),
            forall|k: int| 0 <= k < nodes.len() ==> short((#[trigger] nodes@[k]).name@) && short(nodes@[k].id_field_name@),
            row_texts(rows@) == want.take(i as int),
            cells_fit(row_texts(rows@)),
            forall|k: int| 0 <= k < rows@.len() ==> (#[trigger] rows@[k]).len() == 4,
        decreases nodes.len() - i,
    {
        proof {
            reveal_strlit("\x1b[32m");
            reveal_strlit("\x1b[34m");
            reveal_strlit("\x1b[0m");
            reveal_strlit("node");
            reveal_strlit("edge");
            reveal_strlit(" -> ");
            reveal_strlit("");
        }
        let m = &nodes[i];
        let mut row: Vec<String> = Vec::new();
        row.push(String::from_str("node"));
        row.push(colors.type_label(m.name.as_str()));
        row.push(colors.property_name(m.id_field_name.as_str()));
        row.push(String::new());
        let ghost before = rows@;
        assert(short(nodes@[i as int].name@) && short(nodes@[i as int].id_field_name@));
        assert(arg_texts(row@) =~= node_schema_row(nodes@[i as int], *colors));
        rows.push(row);
        proof {
            assert(row_texts(rows@) =~= row_texts(before).push(arg_texts(row@)));
            assert forall|r: int, c: int| 0 <= r < row_texts(rows@).len() && 0 <= c < row_texts(rows@)[r].len()
                implies (#[trigger] row_texts(rows@)[r][c]).len() + 2 <= usize::MAX by {
                if r < before.len() {
                    assert(row_texts(rows@)[r] == row_texts(before)[r]);
                }
            }
            assert(want.take(i as int + 1) =~= want.take(i as int).push(want[i as int]));
        }
        i = i + 1;
    }
    let mut j: usize = 0;
    while j < edges.len()
        invariant
            want == Seq::new(nodes@.len(), |i: int| node_schema_row(nodes@[i], *colors)) + Seq::new(
                edges@.len(),
                |i: int| edge_schema_row(edges@[i], *colors),
            ),
            j <= edges.len(),
            forall|k: int| 0 <= k < edges.len() ==> short((#[trigger] edges@[k]).name@) && short(edges@[k].id_field_name@)
                && (edges@[k].from_model@.len() + edges@[k].to_model@.len()) * 2 + 64 <= usize::MAX,
            row_texts(rows@) == want.take(nodes@.len() + j),
            cells_fit(row_texts(rows@)),
            forall|k: int| 0 <= k < rows@.len() ==> (#[trigger] rows@[k]).len() == 4,
        decreases edges.len() - j,
    {
        proof {
            reveal_strlit("\x1b[32m");
            reveal_strlit("\x1b[34m");
            reveal_strlit("\x1b[0m");
            reveal_strlit("node");
            reveal_strlit("edge");
            reveal_strlit(" -> ");
            reveal_strlit("");
        }
        let m = &edges[j];
        let mut row: Vec<String> = Vec::new();
        row.push(String::from_str("edge"));
        row.push(colors.type_label(m.name.as_str()));
        row.push(colors.property_name(m.id_field_name.as_str()));
        let ends = concat(concat(colors.type_label(m.from_model.as_str()).as_str(), " -> ").as_str(), colors.type_label(m.to_model.as_str()).as_str());
        row.push(ends);
        let ghost before = rows@;
        assert(short(edges@[j as int].name@) && short(edges@[j as int].id_field_name@));
        assert(arg_texts(row@) =~= edge_schema_row(edges@[j as int], *colors));
        rows.push(row);
        proof {
            assert(row_texts(rows@) =~= row_texts(before).push(arg_texts(row@)));
            assert forall|r: int, c: int| 0 <= r < row_texts(rows@).len() && 0 <= c < row_texts(rows@)[r].len()
                implies (#[trigger] row_texts(rows@)[r][c]).len() + 2 <= usize::MAX by {
                if r < before.len() {
                    assert(row_texts(rows@)[r] == row_texts(before)[r]);
                }
            }
            assert(want.take(nodes@.len() + j + 1) =~= want.take(nodes@.len() + j).push(want[nodes@.len() + j]));
        }
        j = j + 1;
    }
    assert(want.take(nodes@.len() + j) =~= want);
    let mut r: Vec<String> = Vec::new();
    r.push(String::from_str("Service Schema"));
    if rows.len() == 0 {
        r.push(String::from_str("  none"));
    } else {
        let mut headers: Vec<String> = Vec::new();
        headers.push(String::from_str("kind"));
        headers.push(String::from_str("type"));
        headers.push(String::from_str("id field"));
        headers.push(String::from_str("endpoints"));
        let mut kinds: Vec<TableHeaderKind> = Vec::new();
        kinds.push(TableHeaderKind::Plain);
        kinds.push(TableHeaderKind::Type);
        kinds.push(TableHeaderKind::Property);
        kinds.push(TableHeaderKind::Plain);
        proof {
            reveal_strlit("kind");
            reveal_strlit("type");
            reveal_strlit("id field");
            reveal_strlit("endpoints");
            vstd::utf8::is_ascii_chars_encode_utf8("kind"@);
            vstd::utf8::is_ascii_chars_encode_utf8("type"@);
            vstd::utf8::is_ascii_chars_encode_utf8("id field"@);
            vstd::utf8::is_ascii_chars_encode_utf8("endpoints"@);
            assert(arg_texts(headers@) =~= schema_headers());
            assert(kinds@ =~= schema_header_kinds());
        }
        let mut table = cli_table_lines(&headers, &kinds, &rows, colors);
        let ghost tl = texts(table@);
        r.append(&mut table);
        assert(texts(r@) =~= seq!["Service Schema"@] + tl);
    }
    assert(texts(r@) =~= schema_text(nodes@, edges@, *colors));
    r
}

} // verus!
