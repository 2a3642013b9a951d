//! Startup options of the MCP server (`grm-mcp`).

use vstd::prelude::*;
use crate::error::{GrmError, ErrorView};
use crate::text::{trim, trim_str, str_eq, concat};

verus! {

/// How a durable session file is encoded.
#[derive(Debug, Clone, Copy, PartialEq, Eq, Structural)]
pub enum DurabilityFormat {
    Json,
    Binary,
}

/// Format of the session file named on the command line.
#[derive(Debug, Clone, Copy, PartialEq, Eq, Structural)]
pub enum SessionFileFormat {
    Json,
    Binary,
}

impl SessionFileFormat {
    /// The durability encoding written for this file format.
    pub fn durability_format(self) -> (d: DurabilityFormat)
        ensures
            d == (match self {
                SessionFileFormat::Json => DurabilityFormat::Json,
                SessionFileFormat::Binary => DurabilityFormat::Binary,
            }),
    {
        match self {
            SessionFileFormat::Json => DurabilityFormat::Json,
            SessionFileFormat::Binary => DurabilityFormat::Binary,
        }
    }
}

/// Where and how every accepted mutation is appended.
#[derive(Debug, Clone)]
pub struct AutocommitTarget {
    pub format: SessionFileFormat,
    pub path: String,
}

/// The transport the server listens on. The HTTP bind address is kept as the
/// `host:port` text given on the command line.
#[derive(Debug, Clone)]
pub enum TransportOptions {
    Stdio,
    Http { bind: String, path: String, allowed_hosts: Vec<String> },
}

/// Everything the command line selects.
#[derive(Debug, Clone)]
pub struct StartupOptions {
    pub transport: TransportOptions,
    pub load_json: Option<String>,
    pub load_bin: Option<String>,
    pub import_json: Option<String>,
    pub autocommit: Option<AutocommitTarget>,
    pub export_json: Option<String>,
}

/// `TransportOptions` as plain values.
pub enum TransportView {
    Stdio,
    Http { bind: Seq<char>, path: Seq<char>, allowed_hosts: Seq<Seq<char>> },
}

/// `StartupOptions` as plain values.
pub struct StartupView {
    pub transport: TransportView,
    pub load_json: Option<Seq<char>>,
    pub load_bin: Option<Seq<char>>,
    pub import_json: Option<Seq<char>>,
    pub autocommit: Option<(SessionFileFormat, Seq<char>)>,
    pub export_json: Option<Seq<char>>,
}

pub open spec fn opt_text(o: Option<String>) -> Option<Seq<char>> {
    match o {
        Some(s) => Some(s@),
        None => None,
    }
}

pub open spec fn texts(v: Seq<String>) -> Seq<Seq<char>> {
    v.map_values(|s: String| s@)
}

impl View for TransportOptions {
    type V = TransportView;

    open spec fn view(&self) -> TransportView {
        match self {
            TransportOptions::Stdio => TransportView::Stdio,
            TransportOptions::Http { bind, path, allowed_hosts } => TransportView::Http {
                bind: bind@,
                path: path@,
                allowed_hosts: texts(allowed_hosts@),
            },
        }
    }
}

impl View for StartupOptions {
    type V = StartupView;

    open spec fn view(&self) -> StartupView {
        StartupView {
            transport: self.transport@,
            load_json: opt_text(self.load_json),
            load_bin: opt_text(self.load_bin),
            import_json: opt_text(self.import_json),
            autocommit: match self.autocommit {
                Some(t) => Some((t.format, t.path@)),
                None => None,
            },
            export_json: opt_text(self.export_json),
        }
    }
}

/// The default HTTP bind address.
pub open spec fn default_bind() -> Seq<char> {
    "127.0.0.1:8080"@
}

/// The default HTTP endpoint path.
pub open spec fn default_path() -> Seq<char> {
    "/mcp"@
}

/// The hosts accepted by default in the HTTP `Host` header.
pub open spec fn default_hosts() -> Seq<Seq<char>> {
    seq!["localhost"@, "127.0.0.1"@, "::1"@]
}

/// Options before any argument is read: stdio transport, nothing loaded.
pub open spec fn default_startup() -> StartupView {
    StartupView {
        transport: TransportView::Stdio,
        load_json: None,
        load_bin: None,
        import_json: None,
        autocommit: None,
        export_json: None,
    }
}

/// The usage line of the server.
pub open spec fn usage_text() -> Seq<char> {
    "Usage: grm-mcp [--transport stdio|http] [--http-bind <host:port>] [--http-path <path>] [--http-allowed-host <host-or-host:port>] [--load-json <path>] [--load-bin <path>] [--import-json <path>] [--export-json <path>] [--autocommit-json <path>] [--autocommit-bin <path>]"@
}

/// The message for a flag given as the last argument.
pub open spec fn missing_value_message(flag: Seq<char>) -> Seq<char> {
    flag + " requires a value"@
}

/// Error for an `--http-path` value; `None` when it is acceptable.
pub open spec fn http_path_error(p: Seq<char>) -> Option<Seq<char>> {
    if trim(p).len() == 0 {
        Some("--http-path requires a non-empty absolute path"@)
    } else if p.len() == 0 || p[0] != '/' {
        Some("--http-path must start with '/'"@)
    } else {
        None
    }
}

/// Bind address, path and allowed hosts currently selected, with the
/// defaults of the HTTP transport where stdio is selected.
pub open spec fn http_parts(t: TransportView) -> (Seq<char>, Seq<char>, Seq<Seq<char>>) {
    match t {
        TransportView::Http { bind, path, allowed_hosts } => (bind, path, allowed_hosts),
        TransportView::Stdio => (default_bind(), default_path(), default_hosts()),
    }
}

/// The flags that take one value.
pub open spec fn takes_value(a: Seq<char>) -> bool {
    ||| a == "--load-json"@
    ||| a == "--load-bin"@
    ||| a == "--import-json"@
    ||| a == "--export-json"@
    ||| a == "--transport"@
    ||| a == "--http-bind"@
    ||| a == "--http-path"@
    ||| a == "--http-allowed-host"@
    ||| a == "--autocommit-json"@
    ||| a == "--autocommit-bin"@
}

/// What reading an argument as a socket address gave: the address as
/// written back out, or why it is not one.
pub open spec fn reading_view(r: Result<String, String>) -> Result<Seq<char>, Seq<char>> {
    match r {
        Ok(a) => Ok(a@),
        Err(e) => Err(e@),
    }
}

/// The readings of a list of arguments as socket addresses.
pub open spec fn readings_view(v: Seq<Result<String, String>>) -> Seq<Result<Seq<char>, Seq<char>>> {
    v.map_values(|r: Result<String, String>| reading_view(r))
}

/// Applies flag `a` with value `v` to `o`; `reading` is what reading `v` as a
/// socket address gave.
pub open spec fn apply_flag(o: StartupView, a: Seq<char>, v: Seq<char>, reading: Result<Seq<char>, Seq<char>>) -> Result<StartupView, Seq<char>> {
    let (bind, path, hosts) = http_parts(o.transport);
    if a == "--load-json"@ {
        Ok(StartupView { load_json: Some(v), ..o })
    } else if a == "--load-bin"@ {
        Ok(StartupView { load_bin: Some(v), ..o })
    } else if a == "--import-json"@ {
        Ok(StartupView { import_json: Some(v), ..o })
    } else if a == "--export-json"@ {
        Ok(StartupView { export_json: Some(v), ..o })
    } else if a == "--transport"@ {
        if v == "stdio"@ {
            Ok(StartupView { transport: TransportView::Stdio, ..o })
        } else if v == "http"@ || v == "streamable-http"@ {
            Ok(
                StartupView {
                    transport: TransportView::Http { bind, path, allowed_hosts: hosts },
                    ..o
                },
            )
        } else {
            Err("unsupported --transport '"@ + v + "'; expected 'stdio' or 'http'"@)
        }
    } else if a == "--http-bind"@ {
        match reading {
            Ok(b) => Ok(StartupView { transport: TransportView::Http { bind: b, path, allowed_hosts: hosts }, ..o }),
            Err(e) => Err("--http-bind requires host:port: "@ + e),
        }
    } else if a == "--http-path"@ {
        match http_path_error(v) {
            Some(m) => Err(m),
            None => Ok(
                StartupView {
                    transport: TransportView::Http { bind, path: v, allowed_hosts: hosts },
                    ..o
                },
            ),
        }
    } else if a == "--http-allowed-host"@ {
        if trim(v).len() == 0 {
            Err("--http-allowed-host requires a non-empty host or host:port"@)
        } else {
            Ok(
                StartupView {
                    transport: TransportView::Http { bind, path, allowed_hosts: hosts.push(v) },
                    ..o
                },
            )
        }
    } else if a == "--autocommit-json"@ {
        Ok(StartupView { autocommit: Some((SessionFileFormat::Json, v)), ..o })
    } else {
        Ok(StartupView { autocommit: Some((SessionFileFormat::Binary, v)), ..o })
    }
}

/// The options selected by `args[i..]`, starting from `o`, with `binds[j]`
/// the reading of `args[j]` as a socket address.
pub open spec fn startup_from(args: Seq<Seq<char>>, binds: Seq<Result<Seq<char>, Seq<char>>>, i: int, o: StartupView) -> Result<StartupView, Seq<char>>
    decreases args.len() - i,
{
    if i < 0 || i >= args.len() {
        Ok(o)
    } else {
        let a = args[i];
        if takes_value(a) {
            if i + 1 >= args.len() {
                Err(missing_value_message(a))
            } else {
                match apply_flag(o, a, args[i + 1], binds[i + 1]) {
                    Ok(o2) => startup_from(args, binds, i + 2, o2),
                    Err(m) => Err(m),
                }
            }
        } else if a == "--help"@ || a == "-h"@ {
            Err(usage_text())
        } else {
            Err("unknown argument '"@ + a + "'\n"@ + usage_text())
        }
    }
}

/// The options selected by the whole argument list.
pub open spec fn startup_spec(args: Seq<Seq<char>>, binds: Seq<Result<Seq<char>, Seq<char>>>) -> Result<StartupView, Seq<char>> {
    startup_from(args, binds, 0, default_startup())
}

/// The usage line of the server.
pub fn usage() -> (u: &'static str)
    ensures
        u@ == usage_text(),
{
    "Usage: grm-mcp [--transport stdio|http] [--http-bind <host:port>] [--http-path <path>] [--http-allowed-host <host-or-host:port>] [--load-json <path>] [--load-bin <path>] [--import-json <path>] [--export-json <path>] [--autocommit-json <path>] [--autocommit-bin <path>]"
}

/// The hosts accepted by default in the HTTP `Host` header.
pub fn default_allowed_hosts() -> (v: Vec<String>)
    ensures
        texts(v@) == default_hosts(),
{
    let mut v: Vec<String> = Vec::new();
    v.push(String::from_str("localhost"));
    v.push(String::from_str("127.0.0.1"));
    v.push(String::from_str("::1"));
    assert(texts(v@) =~= default_hosts());
    v
}

/// Checks an `--http-path` value.
pub fn normalize_http_path(path: String) -> (r: Result<String, GrmError>)
    ensures
        match http_path_error(path@) {
            Some(m) => r matches Err(e) && e@ == ErrorView::Constraint(m),
            None => r matches Ok(p) && p@ == path@,
        },
{
    let t = trim_str(path.as_str());
    if t.unicode_len() == 0 {
        return Err(GrmError::Constraint(String::from_str("--http-path requires a non-empty absolute path")));
    }
    if path.as_str().unicode_len() == 0 || path.as_str().get_char(0) != '/' {
        return Err(GrmError::Constraint(String::from_str("--http-path must start with '/'")));
    }
    Ok(path)
}

fn http_parts_of(t: &TransportOptions) -> (r: (String, String, Vec<String>))
    ensures
        (r.0@, r.1@, texts(r.2@)) == http_parts(t@),
{
    match t {
        TransportOptions::Http { bind, path, allowed_hosts } => (bind.clone(), path.clone(), allowed_hosts.clone()),
        TransportOptions::Stdio => (String::from_str("127.0.0.1:8080"), String::from_str("/mcp"), default_allowed_hosts()),
    }
}

fn is_value_flag(a: &str) -> (r: bool)
    ensures
        r == takes_value(a@),
{
    str_eq(a, "--load-json") || str_eq(a, "--load-bin") || str_eq(a, "--import-json") || str_eq(
        a,
        "--export-json",
    ) || str_eq(a, "--transport") || str_eq(a, "--http-bind") || str_eq(a, "--http-path")
        || str_eq(a, "--http-allowed-host") || str_eq(a, "--autocommit-json") || str_eq(
        a,
        "--autocommit-bin",
    )
}

fn apply_flag_exec(o: StartupOptions, a: &str, v: String, bind: &Result<String, String>) -> (r: Result<StartupOptions, GrmError>)
    requires
        takes_value(a@),
    ensures
        match apply_flag(o@, a@, v@, reading_view(*bind)) {
            Ok(o2) => r matches Ok(x) && x@ == o2,
            Err(m) => r matches Err(e) && e@ == ErrorView::Constraint(m),
        },
{
    let mut o = o;
    if str_eq(a, "--load-json") {
        o.load_json = Some(v);
    } else if str_eq(a, "--load-bin") {
        o.load_bin = Some(v);
    } else if str_eq(a, "--import-json") {
        o.import_json = Some(v);
    } else if str_eq(a, "--export-json") {
        o.export_json = Some(v);
    } else if str_eq(a, "--transport") {
        if str_eq(v.as_str(), "stdio") {
            o.transport = TransportOptions::Stdio;
        } else if str_eq(v.as_str(), "http") || str_eq(v.as_str(), "streamable-http") {
            let (bind, path, allowed_hosts) = http_parts_of(&o.transport);
            o.transport = TransportOptions::Http { bind, path, allowed_hosts };
        } else {
            let m = concat(concat("unsupported --transport '", v.as_str()).as_str(), "'; expected 'stdio' or 'http'");
            return Err(GrmError::Constraint(m));
        }
    } else if str_eq(a, "--http-bind") {
        let b = match bind {
            Ok(b) => b.clone(),
            Err(e) => {
                return Err(GrmError::Constraint(concat("--http-bind requires host:port: ", e.as_str())));
            },
        };
        let (_bind, path, allowed_hosts) = http_parts_of(&o.transport);
        o.transport = TransportOptions::Http { bind: b, path, allowed_hosts };
    } else if str_eq(a, "--http-path") {
        let path = normalize_http_path(v)?;
        let (bind, _path, allowed_hosts) = http_parts_of(&o.transport);
        o.transport = TransportOptions::Http { bind, path, allowed_hosts };
    } else if str_eq(a, "--http-allowed-host") {
        let t = trim_str(v.as_str());
        if t.unicode_len() == 0 {
            return Err(GrmError::Constraint(String::from_str("--http-allowed-host requires a non-empty host or host:port")));
        }
        let (bind, path, mut allowed_hosts) = http_parts_of(&o.transport);
        let ghost before = allowed_hosts@;
        allowed_hosts.push(v);
        assert(texts(allowed_hosts@) =~= texts(before).push(v@));
        o.transport = TransportOptions::Http { bind, path, allowed_hosts };
    } else if str_eq(a, "--autocommit-json") {
        o.autocommit = Some(AutocommitTarget { format: SessionFileFormat::Json, path: v });
    } else {
        o.autocommit = Some(AutocommitTarget { format: SessionFileFormat::Binary, path: v });
    }
    Ok(o)
}

/// Reads the server's command-line arguments (without the program name).
/// `bind_readings[i]` is what reading `args[i]` as a socket address
/// (`SocketAddr`'s `FromStr`) gave: the address as it displays, or the
/// parse error's text. An `--http-bind` value that is no socket address is
/// refused where it stands; a valid one is kept as the address displays.
pub fn parse_startup_options(args: Vec<String>, bind_readings: Vec<Result<String, String>>) -> (r: Result<StartupOptions, GrmError>)
    requires
        bind_readings@.len() == args@.len(),
    ensures
        match startup_spec(texts(args@), readings_view(bind_readings@)) {
            Ok(o) => r matches Ok(x) && x@ == o,
            Err(m) => r matches Err(e) && e@ == ErrorView::Constraint(m),
        },
{
    let ghost a = texts(args@);
    let ghost b = readings_view(bind_readings@);
    let mut o = StartupOptions {
        transport: TransportOptions::Stdio,
        load_json: None,
        load_bin: None,
        import_json: None,
        autocommit: None,
        export_json: None,
    };
    assert(o@ == default_startup());
    let mut i: usize = 0;
    while i < args.len()
        invariant
            a == texts(args@),
            b == readings_view(bind_readings@),
            bind_readings@.len() == args@.len(),
            i <= args.len(),
            startup_spec(a, b) == startup_from(a, b, i as int, o@),
        decreases args.len() - i,
    {
        let arg = &args[i];
        assert(a[i as int] == arg@);
        if is_value_flag(arg.as_str()) {
            if i + 1 >= args.len() {
                let m = concat(arg.as_str(), " requires a value");
                return Err(GrmError::Constraint(m));
            }
            let v = args[i + 1].clone();
            assert(a[i + 1] == v@);
            assert(b[i + 1] == reading_view(bind_readings@[i + 1]));
            o = apply_flag_exec(o, arg.as_str(), v, &bind_readings[i + 1])?;
            i = i + 2;
        } else if str_eq(arg.as_str(), "--help") || str_eq(arg.as_str(), "-h") {
            return Err(GrmError::Constraint(String::from_str(usage())));
        } else {
            let m = concat(concat(concat("unknown argument '", arg.as_str()).as_str(), "'\n").as_str(), usage());
            return Err(GrmError::Constraint(m));
        }
    }
    Ok(o)
}

} // verus!
