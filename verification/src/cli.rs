//! The `grm session` command line: startup selection, script comments,
//! colours, table layout and the text written for nodes and edges.

use vstd::prelude::*;
use crate::text::{
    str_eq, concat, chars_of, string_from_range, trim_end, trim_end_bound, split_on, split_chars,
    string_from_chars,
};
use crate::error::{GrmError, ErrorView};
use crate::schema::{RuntimeField, RuntimeValueType, value_type_keyword, field_view};


verus! {

/// Encoding of a session file loaded at startup.
#[derive(Debug, Clone, Copy, PartialEq, Eq, Structural)]
pub enum StartupLoadFormat {
    Json,
    Binary,
}

/// The `--autocommit` choice.
#[derive(Debug, Clone, Copy, PartialEq, Eq, Structural)]
pub enum StartupAutocommit {
    Default,
    On,
    Off,
}

/// How the interactive session starts.
#[derive(Debug, Clone, PartialEq, Eq)]
pub enum SessionStartup {
    Fresh,
    Script { path: String },
    Load { format: StartupLoadFormat, path: String, autocommit: StartupAutocommit },
}

/// `SessionStartup` as plain values.
pub enum SessionStartupView {
    Fresh,
    Script { path: Seq<char> },
    Load { format: StartupLoadFormat, path: Seq<char>, autocommit: StartupAutocommit },
}

impl View for SessionStartup {
    type V = SessionStartupView;

    open spec fn view(&self) -> SessionStartupView {
        match self {
            SessionStartup::Fresh => SessionStartupView::Fresh,
            SessionStartup::Script { path } => SessionStartupView::Script { path: path@ },
            SessionStartup::Load { format, path, autocommit } => SessionStartupView::Load {
                format: *format,
                path: path@,
                autocommit: *autocommit,
            },
        }
    }
}

/// What the options read so far have selected.
pub struct StartupChoice {
    pub script: Option<Seq<char>>,
    pub load: Option<(StartupLoadFormat, Seq<char>)>,
    pub autocommit: StartupAutocommit,
}

/// The options `args[i..]` select, starting from `c`.
pub open spec fn session_options_from(args: Seq<Seq<char>>, i: int, c: StartupChoice) -> Result<StartupChoice, Seq<char>>
    decreases args.len() - i,
{
    if i < 0 || i >= args.len() {
        Ok(c)
    } else {
        let a = args[i];
        if a == "--script"@ {
            if i + 1 >= args.len() {
                Err("--script requires <path>"@)
            } else {
                session_options_from(args, i + 2, StartupChoice { script: Some(args[i + 1]), ..c })
            }
        } else if a == "--load"@ {
            if i + 2 >= args.len() {
                Err("--load requires json|bin and <path>"@)
            } else if args[i + 1] == "json"@ {
                session_options_from(args, i + 3, StartupChoice { load: Some((StartupLoadFormat::Json, args[i + 2])), ..c })
            } else if args[i + 1] == "bin"@ {
                session_options_from(args, i + 3, StartupChoice { load: Some((StartupLoadFormat::Binary, args[i + 2])), ..c })
            } else {
                Err("unknown --load format '"@ + args[i + 1] + "'"@)
            }
        } else if a == "--autocommit"@ {
            if i + 1 >= args.len() {
                Err("--autocommit requires on|off"@)
            } else if args[i + 1] == "on"@ {
                session_options_from(args, i + 2, StartupChoice { autocommit: StartupAutocommit::On, ..c })
            } else if args[i + 1] == "off"@ {
                session_options_from(args, i + 2, StartupChoice { autocommit: StartupAutocommit::Off, ..c })
            } else {
                Err("unknown --autocommit value '"@ + args[i + 1] + "'"@)
            }
        } else {
            Err("unknown session option '"@ + a + "'"@)
        }
    }
}

/// How a session starts given the arguments after `session`.
pub open spec fn session_startup_spec(args: Seq<Seq<char>>) -> Result<SessionStartupView, Seq<char>> {
    if args.len() == 0 {
        Ok(SessionStartupView::Fresh)
    } else {
        match session_options_from(
            args,
            0,
            StartupChoice { script: None, load: None, autocommit: StartupAutocommit::Default },
        ) {
            Err(m) => Err(m),
            Ok(c) => if c.script is Some && c.load is Some {
                Err("--script and --load cannot be combined yet"@)
            } else if c.script is Some {
                if c.autocommit != StartupAutocommit::Default {
                    Err("--autocommit requires --load"@)
                } else {
                    Ok(SessionStartupView::Script { path: c.script->0 })
                }
            } else if let Some((format, path)) = c.load {
                Ok(SessionStartupView::Load { format, path, autocommit: c.autocommit })
            } else if c.autocommit != StartupAutocommit::Default {
                Err("--autocommit requires --load"@)
            } else {
                Ok(SessionStartupView::Fresh)
            },
        }
    }
}

pub open spec fn arg_texts(v: Seq<String>) -> Seq<Seq<char>> {
    v.map_values(|s: String| s@)
}

/// Reads the options of `grm session`; the error is the message shown above
/// the usage text.
pub fn parse_session_startup(args: Vec<String>) -> (r: Result<SessionStartup, String>)
    ensures
        match session_startup_spec(arg_texts(args@)) {
            Ok(s) => r matches Ok(x) && x@ == s,
            Err(m) => r matches Err(e) && e@ == m,
        },
{
    let ghost a = arg_texts(args@);
    if args.len() == 0 {
        return Ok(SessionStartup::Fresh);
    }
    let mut script: Option<String> = None;
    let mut load: Option<(StartupLoadFormat, String)> = None;
    let mut autocommit = StartupAutocommit::Default;
    let mut index: usize = 0;
    while index < args.len()
        invariant
            a == arg_texts(args@),
            index <= args.len(),
            session_options_from(a, 0, StartupChoice { script: None, load: None, autocommit: StartupAutocommit::Default })
                == session_options_from(
                a,
                index as int,
                StartupChoice {
                    script: match script { Some(p) => Some(p@), None => None },
                    load: match load { Some(l) => Some((l.0, l.1@)), None => None },
                    autocommit,
                },
            ),
        decreases args.len() - index,
    {
        let arg = args[index].as_str();
        assert(a[index as int] == arg@);
        if str_eq(arg, "--script") {
            if index + 1 >= args.len() {
                return Err(String::from_str("--script requires <path>"));
            }
            assert(a[index + 1] == args@[index + 1]@);
            script = Some(args[index + 1].clone());
            index = index + 2;
        } else if str_eq(arg, "--load") {
            if index + 1 >= args.len() {
                return Err(String::from_str("--load requires json|bin and <path>"));
            }
            if index + 2 >= args.len() {
                return Err(String::from_str("--load requires json|bin and <path>"));
            }
            let format_text = args[index + 1].as_str();
            assert(a[index + 1] == format_text@);
            assert(a[index + 2] == args@[index + 2]@);
            let format = if str_eq(format_text, "json") {
                StartupLoadFormat::Json
            } else if str_eq(format_text, "bin") {
                StartupLoadFormat::Binary
            } else {
                return Err(concat(concat("unknown --load format '", format_text).as_str(), "'"));
            };
            load = Some((format, args[index + 2].clone()));
            index = index + 3;
        } else if str_eq(arg, "--autocommit") {
            if index + 1 >= args.len() {
                return Err(String::from_str("--autocommit requires on|off"));
            }
            let value = args[index + 1].as_str();
            assert(a[index + 1] == value@);
            autocommit = if str_eq(value, "on") {
                StartupAutocommit::On
            } else if str_eq(value, "off") {
                StartupAutocommit::Off
            } else {
                return Err(concat(concat("unknown --autocommit value '", value).as_str(), "'"));
            };
            index = index + 2;
        } else {
            return Err(concat(concat("unknown session option '", arg).as_str(), "'"));
        }
    }
    if script.is_some() && load.is_some() {
        return Err(String::from_str("--script and --load cannot be combined yet"));
    }
    if let Some(path) = script {
        if autocommit != StartupAutocommit::Default {
            return Err(String::from_str("--autocommit requires --load"));
        }
        return Ok(SessionStartup::Script { path });
    }
    if let Some((format, path)) = load {
        return Ok(SessionStartup::Load { format, path, autocommit });
    }
    if autocommit != StartupAutocommit::Default {
        return Err(String::from_str("--autocommit requires --load"));
    }
    Ok(SessionStartup::Fresh)
}

/// Where the session runs and what it does first.
#[derive(Debug, Clone, PartialEq, Eq)]
pub enum SessionLaunch {
    /// The gRPC service-backed session, with its setup script if any.
    Service { script: Option<String> },
    /// A local session that runs a script, then continues interactively.
    LocalScript { path: String },
    /// A local session that loads a file, then sets autocommit as asked.
    LocalLoad { format: StartupLoadFormat, path: String, autocommit: LoadAutocommit },
    /// A fresh local session.
    LocalFresh,
}

/// What a loaded local session does with autocommit: leave it off, or write
/// every change back to the loaded file in its own format.
#[derive(Debug, Clone, Copy, PartialEq, Eq, Structural)]
pub enum LoadAutocommit {
    Off,
    Json,
    Binary,
}

/// The autocommit of a loaded session: on only when asked for, in the
/// loaded file's format.
pub open spec fn load_autocommit_spec(format: StartupLoadFormat, autocommit: StartupAutocommit) -> LoadAutocommit {
    match autocommit {
        StartupAutocommit::On => match format {
            StartupLoadFormat::Json => LoadAutocommit::Json,
            StartupLoadFormat::Binary => LoadAutocommit::Binary,
        },
        _ => LoadAutocommit::Off,
    }
}

/// Why `--load` is refused in the service-backed session.
pub open spec fn service_load_message() -> Seq<char> {
    "--load is not supported in gRPC service mode; use GRM_SERVICE_WORKSPACE_MODE=open"@
}

/// How `grm session` starts, from its parsed options and the `GRM_BACKEND`
/// setting: `grpc` selects the service-backed session, which takes a setup
/// script but refuses `--load`; anything else starts a local session.
pub fn session_launch(startup: SessionStartup, backend: Option<String>) -> (r: Result<SessionLaunch, String>)
    ensures
        (backend matches Some(b) && b@ == "grpc"@) ==> match startup@ {
            SessionStartupView::Fresh => r matches Ok(SessionLaunch::Service { script: None }),
            SessionStartupView::Script { path } => r matches Ok(SessionLaunch::Service { script: Some(p) }) && p@ == path,
            SessionStartupView::Load { .. } => r matches Err(m) && m@ == service_load_message(),
        },
        !(backend matches Some(b) && b@ == "grpc"@) ==> match startup@ {
            SessionStartupView::Fresh => r matches Ok(SessionLaunch::LocalFresh),
            SessionStartupView::Script { path } => r matches Ok(SessionLaunch::LocalScript { path: p }) && p@ == path,
            SessionStartupView::Load { format, path, autocommit } => r matches Ok(
                SessionLaunch::LocalLoad { format: f, path: p, autocommit: a },
            ) && f == format && p@ == path && a == load_autocommit_spec(format, autocommit),
        },
{
    let service = match &backend {
        Some(b) => str_eq(b.as_str(), "grpc"),
        None => false,
    };
    if service {
        match startup {
            SessionStartup::Fresh => Ok(SessionLaunch::Service { script: None }),
            SessionStartup::Script { path } => Ok(SessionLaunch::Service { script: Some(path) }),
            SessionStartup::Load { .. } => Err(String::from_str(
                "--load is not supported in gRPC service mode; use GRM_SERVICE_WORKSPACE_MODE=open",
            )),
        }
    } else {
        match startup {
            SessionStartup::Fresh => Ok(SessionLaunch::LocalFresh),
            SessionStartup::Script { path } => Ok(SessionLaunch::LocalScript { path }),
            SessionStartup::Load { format, path, autocommit } => {
                let a = match autocommit {
                    StartupAutocommit::On => match format {
                        StartupLoadFormat::Json => LoadAutocommit::Json,
                        StartupLoadFormat::Binary => LoadAutocommit::Binary,
                    },
                    _ => LoadAutocommit::Off,
                };
                Ok(SessionLaunch::LocalLoad { format, path, autocommit: a })
            },
        }
    }
}

/// Position of the first `#` outside quotes in `s[i..]`, scanning with the
/// quote character `quote` open. Inside quotes a backslash escapes the next
/// character.
pub open spec fn comment_start(s: Seq<char>, i: int, quote: Option<char>) -> Option<int>
    decreases s.len() - i,
{
    if i < 0 || i >= s.len() {
        None
    } else {
        let c = s[i];
        match quote {
            Some(q) => if c == '\\' {
                if i + 1 < s.len() {
                    comment_start(s, i + 2, quote)
                } else {
                    None
                }
            } else if c == q {
                comment_start(s, i + 1, None)
            } else {
                comment_start(s, i + 1, quote)
            },
            None => if c == '"' || c == '\'' {
                comment_start(s, i + 1, Some(c))
            } else if c == '#' {
                Some(i)
            } else {
                comment_start(s, i + 1, None)
            },
        }
    }
}

/// A script line without its `#` comment: the text before the first unquoted
/// `#`, with trailing white space removed; the line itself when it has none.
pub open spec fn strip_comment_spec(s: Seq<char>) -> Seq<char> {
    match comment_start(s, 0, None) {
        Some(k) => trim_end(s.take(k)),
        None => s,
    }
}

/// Removes a trailing `#` comment from a service script line.
pub fn strip_service_script_comment(line: &str) -> (r: String)
    ensures
        r@ == strip_comment_spec(line@),
{
    let v = chars_of(line);
    let mut quote: Option<char> = None;
    let mut i: usize = 0;
    while i < v.len()
        invariant
            v@ == line@,
            i <= v.len(),
            comment_start(v@, 0, None) == comment_start(v@, i as int, quote),
        decreases v.len() - i,
    {
        let ch = v[i];
        match quote {
            Some(q) => {
                if ch == '\\' {
                    if i + 1 < v.len() {
                        i = i + 2;
                    } else {
                        i = v.len();
                    }
                } else if ch == q {
                    quote = None;
                    i = i + 1;
                } else {
                    i = i + 1;
                }
            },
            None => {
                if ch == '"' || ch == '\'' {
                    quote = Some(ch);
                    i = i + 1;
                } else if ch == '#' {
                    let e = trim_end_bound(&v, i);
                    return string_from_range(&v, 0, e);
                } else {
                    i = i + 1;
                }
            },
        }
    }
    string_from_range(&v, 0, v.len())
}

/// Escape sequence that starts green text.
pub open spec fn green() -> Seq<char> {
    "\x1b[32m"@
}

/// Escape sequence that starts blue text.
pub open spec fn blue() -> Seq<char> {
    "\x1b[34m"@
}

/// Escape sequence that starts orange text.
pub open spec fn orange() -> Seq<char> {
    "\x1b[38;5;208m"@
}

/// Escape sequence that ends coloured text.
pub open spec fn reset() -> Seq<char> {
    "\x1b[0m"@
}

/// Terminal colouring of type names, property names and string values.
#[derive(Debug, Clone, Copy)]
pub struct CliColors {
    pub enabled: bool,
}

impl CliColors {
    /// `text` framed by `color` and the reset sequence when colouring is on.
    pub open spec fn wrap_spec(self, text: Seq<char>, color: Seq<char>) -> Seq<char> {
        if self.enabled {
            color + text + reset()
        } else {
            text
        }
    }

    /// Colouring that is on exactly when `enabled` is.
    pub fn for_terminal(enabled: bool) -> (c: Self)
        ensures
            c.enabled == enabled,
    {
        CliColors { enabled }
    }

    /// A model or link name, in green.
    pub fn type_label(&self, text: &str) -> (r: String)
        ensures
            r@ == self.wrap_spec(text@, green()),
    {
        self.wrap(text, "\x1b[32m")
    }

    /// A property or command name, in blue.
    pub fn property_name(&self, text: &str) -> (r: String)
        ensures
            r@ == self.wrap_spec(text@, blue()),
    {
        self.wrap(text, "\x1b[34m")
    }

    /// A string value, in orange.
    pub fn string_value(&self, text: &str) -> (r: String)
        ensures
            r@ == self.wrap_spec(text@, orange()),
    {
        self.wrap(text, "\x1b[38;5;208m")
    }

    /// `text` framed by `color` and the reset sequence when colouring is on.
    pub fn wrap(&self, text: &str, color: &str) -> (r: String)
        ensures
            r@ == self.wrap_spec(text@, color@),
    {
        if self.enabled {
            concat(concat(color, text).as_str(), "\x1b[0m")
        } else {
            String::from_str(text)
        }
    }
}

/// Number of characters of `s[i..]` shown on a terminal: escape sequences
/// `ESC [ ... m` are skipped; a lone `ESC` hides itself and the next
/// character is counted. `skipping` is set inside an escape sequence.
pub open spec fn shown_from(s: Seq<char>, i: int, skipping: bool) -> nat
    decreases s.len() - i,
{
    if i < 0 || i >= s.len() {
        0
    } else if skipping {
        if s[i] == 'm' {
            shown_from(s, i + 1, false)
        } else {
            shown_from(s, i + 1, true)
        }
    } else if s[i] == '\x1b' {
        if i + 1 < s.len() && s[i + 1] == '[' {
            shown_from(s, i + 2, true)
        } else if i + 1 < s.len() {
            1 + shown_from(s, i + 2, false)
        } else {
            0
        }
    } else {
        1 + shown_from(s, i + 1, false)
    }
}

/// Width of `s` on a terminal, colour escape sequences excluded.
pub open spec fn shown_width(s: Seq<char>) -> nat {
    shown_from(s, 0, false)
}

pub proof fn lemma_shown_from_bound(s: Seq<char>, i: int, skipping: bool)
    requires
        0 <= i <= s.len(),
    ensures
        shown_from(s, i, skipping) <= s.len() - i,
    decreases s.len() - i,
{
    if i < s.len() {
        if skipping {
            lemma_shown_from_bound(s, i + 1, s[i] != 'm');
        } else if s[i] == '\x1b' {
            if i + 1 < s.len() {
                lemma_shown_from_bound(s, i + 2, s[i + 1] == '[');
            }
        } else {
            lemma_shown_from_bound(s, i + 1, false);
        }
    }
}

/// Number of characters `text` occupies on a terminal.
pub fn visible_width(text: &str) -> (w: usize)
    ensures
        w == shown_width(text@),
{
    let v = chars_of(text);
    let mut index: usize = 0;
    let mut width: usize = 0;
    let mut skipping = false;
    proof {
        lemma_shown_from_bound(v@, 0, false);
    }
    while index < v.len()
        invariant
            v@ == text@,
            index <= v.len(),
            width + shown_from(v@, index as int, skipping) == shown_width(v@),
            width <= index,
        decreases v.len() - index,
    {
        proof {
            lemma_shown_from_bound(v@, index as int, skipping);
        }
        if skipping {
            if v[index] == 'm' {
                skipping = false;
            }
            index = index + 1;
        } else if v[index] == '\x1b' {
            if index + 1 < v.len() && v[index + 1] == '[' {
                skipping = true;
                index = index + 2;
            } else if index + 1 < v.len() {
                width = width + 1;
                index = index + 2;
            } else {
                index = v.len();
            }
        } else {
            width = width + 1;
            index = index + 1;
        }
    }
    width
}

/// How a table header is coloured.
#[derive(Debug, Clone, Copy, PartialEq, Eq, Structural)]
pub enum TableHeaderKind {
    Plain,
    Property,
    Type,
}

/// `n` copies of `c`.
pub open spec fn repeat_char(c: char, n: nat) -> Seq<char> {
    Seq::new(n, |_i: int| c)
}

fn push_repeat(s: &mut String, c: char, n: usize)
    ensures
        final(s)@ == old(s)@ + repeat_char(c, n as nat),
{
    let mut k: usize = 0;
    while k < n
        invariant
            k <= n,
            s@ == old(s)@ + repeat_char(c, k as nat),
        decreases n - k,
    {
        crate::text::push_char(s, c);
        k = k + 1;
        assert(s@ =~= old(s)@ + repeat_char(c, k as nat));
    }
}

/// The horizontal rule of a table whose columns are `widths` wide.
pub open spec fn table_border(widths: Seq<usize>) -> Seq<char>
    decreases widths.len(),
{
    if widths.len() == 0 {
        seq!['+']
    } else {
        table_border(widths.drop_last()) + repeat_char('-', (widths.last() + 2) as nat) + seq!['+']
    }
}

/// Draws the horizontal rule of a table.
pub fn format_table_border(widths: &Vec<usize>) -> (r: String)
    requires
        forall|i: int| 0 <= i < widths.len() ==> widths[i] + 2 <= usize::MAX,
    ensures
        r@ == table_border(widths@),
{
    let mut line = String::new();
    crate::text::push_char(&mut line, '+');
    let mut i: usize = 0;
    assert(widths@.take(0).len() == 0);
    while i < widths.len()
        invariant
            i <= widths.len(),
            forall|j: int| 0 <= j < widths.len() ==> widths[j] + 2 <= usize::MAX,
            line@ == table_border(widths@.take(i as int)),
        decreases widths.len() - i,
    {
        let w = widths[i] + 2;
        push_repeat(&mut line, '-', w);
        crate::text::push_char(&mut line, '+');
        assert(widths@.take(i + 1).drop_last() =~= widths@.take(i as int));
        i = i + 1;
        assert(line@ =~= table_border(widths@.take(i as int)));
    }
    assert(widths@.take(i as int) =~= widths@);
    line
}

/// One table cell: a space, the text, padding up to `width` visible
/// characters, and ` |`.
pub open spec fn table_cell(cell: Seq<char>, width: usize) -> Seq<char> {
    let pad: nat = if width >= shown_width(cell) {
        (width - shown_width(cell)) as nat
    } else {
        0
    };
    seq![' '] + cell + repeat_char(' ', pad) + " |"@
}

/// A table row: `|` and then one cell per pair of text and width, as many as
/// the shorter of the two lists has.
pub open spec fn table_row(cells: Seq<Seq<char>>, widths: Seq<usize>) -> Seq<char>
    decreases cells.len(),
{
    if cells.len() == 0 || widths.len() == 0 {
        seq!['|']
    } else if cells.len() <= widths.len() {
        table_row(cells.drop_last(), widths) + table_cell(cells.last(), widths[cells.len() - 1])
    } else {
        table_row(cells.drop_last(), widths)
    }
}

/// Draws one table row.
pub fn format_table_row(cells: &Vec<String>, widths: &Vec<usize>) -> (r: String)
    ensures
        r@ == table_row(crate::cli::arg_texts(cells@), widths@),
{
    let ghost cs = arg_texts(cells@);
    let mut line = String::new();
    crate::text::push_char(&mut line, '|');
    let n = if cells.len() < widths.len() {
        cells.len()
    } else {
        widths.len()
    };
    let mut i: usize = 0;
    assert(cs.take(0).len() == 0);
    while i < n
        invariant
            cs == arg_texts(cells@),
            n <= cells.len(),
            n <= widths.len(),
            n == cells.len() || n == widths.len(),
            i <= n,
            line@ == table_row(cs.take(i as int), widths@),
        decreases n - i,
    {
        let cell = cells[i].as_str();
        let width = widths[i];
        let shown = visible_width(cell);
        let padding = if width >= shown {
            width - shown
        } else {
            0
        };
        crate::text::push_char(&mut line, ' ');
        line.append(cell);
        push_repeat(&mut line, ' ', padding);
        line.append(" |");
        proof {
            let t = cs.take(i + 1);
            assert(t.drop_last() =~= cs.take(i as int));
            assert(t.last() == cells@[i as int]@);
        }
        i = i + 1;
        assert(line@ =~= table_row(cs.take(i as int), widths@));
    }
    proof {
        lemma_table_row_prefix(cs, widths@, n as int);
    }
    line
}

/// Cells past the last width do not change a row.
proof fn lemma_table_row_prefix(cs: Seq<Seq<char>>, widths: Seq<usize>, n: int)
    requires
        0 <= n <= cs.len(),
        n == cs.len() || n == widths.len(),
    ensures
        table_row(cs, widths) == table_row(cs.take(n), widths),
    decreases cs.len() - n,
{
    if n < cs.len() {
        let t = cs.drop_last();
        if t.len() == n {
            assert(t =~= cs.take(n));
            if widths.len() == 0 {
            } else {
                assert(cs.len() > widths.len());
            }
        } else {
            assert(t.take(n) =~= cs.take(n));
            lemma_table_row_prefix(t, widths, n);
        }
    } else {
        assert(cs.take(n) =~= cs);
    }
}

/// A header styled as its kind asks.
pub open spec fn styled_header(colors: CliColors, header: Seq<char>, kind: TableHeaderKind) -> Seq<char> {
    match kind {
        TableHeaderKind::Plain => header,
        TableHeaderKind::Property => colors.wrap_spec(header, blue()),
        TableHeaderKind::Type => colors.wrap_spec(header, green()),
    }
}

/// Headers paired with their kinds and styled, as many as the shorter list.
pub open spec fn styled_headers(colors: CliColors, headers: Seq<Seq<char>>, kinds: Seq<TableHeaderKind>) -> Seq<Seq<char>> {
    let n = if headers.len() <= kinds.len() {
        headers.len()
    } else {
        kinds.len()
    };
    Seq::new(n, |i: int| styled_header(colors, headers[i], kinds[i]))
}

/// Draws the header row of a table.
pub fn format_table_header_row(
    headers: &Vec<String>,
    header_kinds: &Vec<TableHeaderKind>,
    widths: &Vec<usize>,
    colors: &CliColors,
) -> (r: String)
    ensures
        r@ == table_row(styled_headers(*colors, arg_texts(headers@), header_kinds@), widths@),
{
    let n = if headers.len() <= header_kinds.len() {
        headers.len()
    } else {
        header_kinds.len()
    };
    let mut styled: Vec<String> = Vec::new();
    let mut i: usize = 0;
    while i < n
        invariant
            n <= headers.len(),
            n <= header_kinds.len(),
            i <= n,
            styled@.len() == i,
            forall|j: int|
                0 <= j < i ==> (#[trigger] styled@[j])@ == styled_header(*colors, headers@[j]@, header_kinds@[j]),
        decreases n - i,
    {
        let h = headers[i].as_str();
        let s = match header_kinds[i] {
            TableHeaderKind::Plain => String::from_str(h),
            TableHeaderKind::Property => colors.property_name(h),
            TableHeaderKind::Type => colors.type_label(h),
        };
        styled.push(s);
        i = i + 1;
    }
    assert(arg_texts(styled@) =~= styled_headers(*colors, arg_texts(headers@), header_kinds@));
    format_table_row(&styled, widths)
}

/// The cells of each row, as plain values.
pub open spec fn row_texts(rows: Seq<Vec<String>>) -> Seq<Seq<Seq<char>>> {
    rows.map_values(|r: Vec<String>| arg_texts(r@))
}

/// Width of column `i`: the larger of `h` and every cell of that column.
pub open spec fn column_width(h: nat, rows: Seq<Seq<Seq<char>>>, i: int) -> nat
    decreases rows.len(),
{
    if rows.len() == 0 {
        h
    } else {
        let w = column_width(h, rows.drop_last(), i);
        let last = rows.last();
        let c: nat = if 0 <= i < last.len() {
            shown_width(last[i])
        } else {
            0
        };
        if c > w {
            c
        } else {
            w
        }
    }
}

/// Byte length of a header, which is what sets its column's least width.
pub open spec fn byte_len(s: Seq<char>) -> nat {
    vstd::utf8::encode_utf8(s).len()
}

/// The widths of a table's columns.
pub open spec fn table_widths(headers: Seq<Seq<char>>, rows: Seq<Seq<Seq<char>>>) -> Seq<usize> {
    Seq::new(headers.len(), |i: int| column_width(byte_len(headers[i]), rows, i) as usize)
}

/// The lines of a table: rule, header row, rule, one line per row, rule.
pub open spec fn table_lines(
    headers: Seq<Seq<char>>,
    kinds: Seq<TableHeaderKind>,
    rows: Seq<Seq<Seq<char>>>,
    colors: CliColors,
) -> Seq<Seq<char>> {
    let widths = table_widths(headers, rows);
    let border = table_border(widths);
    seq![border, table_row(styled_headers(colors, headers, kinds), widths), border] + Seq::new(
        rows.len(),
        |r: int| table_row(rows[r], widths),
    ) + seq![border]
}

/// Every width a table can reach leaves room for its two padding spaces.
pub open spec fn table_fits(headers: Seq<Seq<char>>, rows: Seq<Seq<Seq<char>>>) -> bool {
    &&& forall|i: int| 0 <= i < headers.len() ==> byte_len(#[trigger] headers[i]) + 2 <= usize::MAX
    &&& forall|r: int, c: int|
        0 <= r < rows.len() && 0 <= c < rows[r].len() ==> (#[trigger] rows[r][c]).len() + 2 <= usize::MAX
}

proof fn lemma_column_width_fits(h: nat, rows: Seq<Seq<Seq<char>>>, i: int)
    requires
        h + 2 <= usize::MAX,
        forall|r: int, c: int|
            0 <= r < rows.len() && 0 <= c < rows[r].len() ==> (#[trigger] rows[r][c]).len() + 2 <= usize::MAX,
    ensures
        column_width(h, rows, i) + 2 <= usize::MAX,
    decreases rows.len(),
{
    if rows.len() > 0 {
        let t = rows.drop_last();
        assert forall|r: int, c: int|
            0 <= r < t.len() && 0 <= c < t[r].len() implies (#[trigger] t[r][c]).len() + 2 <= usize::MAX by {
            assert(t[r] == rows[r]);
        }
        lemma_column_width_fits(h, t, i);
        let last = rows.last();
        if 0 <= i < last.len() {
            assert(rows[rows.len() - 1][i].len() + 2 <= usize::MAX);
            lemma_shown_from_bound(last[i], 0, false);
        }
    }
}

/// The lines of a table with the given headers and rows; each row holds at
/// most one cell per header.
pub fn cli_table_lines(
    headers: &Vec<String>,
    header_kinds: &Vec<TableHeaderKind>,
    rows: &Vec<Vec<String>>,
    colors: &CliColors,
) -> (r: Vec<String>)
    requires
        forall|k: int| 0 <= k < rows.len() ==> (#[trigger] rows@[k]).len() <= headers.len(),
        table_fits(arg_texts(headers@), row_texts(rows@)),
    ensures
        arg_texts(r@) == table_lines(arg_texts(headers@), header_kinds@, row_texts(rows@), *colors),
{
    let ghost hs = arg_texts(headers@);
    let ghost rs = row_texts(rows@);
    let mut widths: Vec<usize> = Vec::new();
    let mut i: usize = 0;
    while i < headers.len()
        invariant
            hs == arg_texts(headers@),
            table_fits(hs, rs),
            i <= headers.len(),
            widths@.len() == i,
            forall|j: int| 0 <= j < i ==> widths@[j] == byte_len(#[trigger] hs[j]),
        decreases headers.len() - i,
    {
        let w = headers[i].as_str().len();
        assert(hs[i as int] == headers@[i as int]@);
        assert(byte_len(hs[i as int]) + 2 <= usize::MAX);
        widths.push(w);
        i = i + 1;
    }
    let mut r: usize = 0;
    while r < rows.len()
        invariant
            hs == arg_texts(headers@),
            rs == row_texts(rows@),
            forall|k: int| 0 <= k < rows.len() ==> (#[trigger] rows@[k]).len() <= headers.len(),
            table_fits(hs, rs),
            r <= rows.len(),
            widths@.len() == headers.len(),
            forall|j: int|
                0 <= j < widths@.len() ==> widths@[j] == column_width(byte_len(#[trigger] hs[j]), rs.take(r as int), j),
        decreases rows.len() - r,
    {
        let row = &rows[r];
        assert(rs[r as int] == arg_texts(row@));
        assert(rs.take(r + 1).drop_last() =~= rs.take(r as int));
        let mut c: usize = 0;
        while c < row.len()
            invariant
                hs == arg_texts(headers@),
                rs == row_texts(rows@),
                table_fits(hs, rs),
                r < rows.len(),
                *row == rows@[r as int],
                row.len() <= headers.len(),
                c <= row.len(),
                widths@.len() == headers.len(),
                forall|j: int|
                    0 <= j < c ==> widths@[j] == column_width(byte_len(#[trigger] hs[j]), rs.take(r + 1), j),
                forall|j: int|
                    c <= j < widths@.len() ==> widths@[j] == column_width(byte_len(#[trigger] hs[j]), rs.take(r as int), j),
            decreases row.len() - c,
        {
            let shown = visible_width(row[c].as_str());
            proof {
                assert(rs.take(r + 1).drop_last() =~= rs.take(r as int));
                assert(rs[r as int] == arg_texts(row@));
                assert(rs.take(r + 1).last() == rs[r as int]);
                assert(rs[r as int][c as int] == row@[c as int]@);
                lemma_column_width_fits(byte_len(hs[c as int]), rs.take(r as int), c as int);
                assert(rs.take(r as int).len() == r);
                assert forall|a: int, b: int|
                    0 <= a < rs.take(r as int).len() && 0 <= b < rs.take(r as int)[a].len() implies
                    (#[trigger] rs.take(r as int)[a][b]).len() + 2 <= usize::MAX by {
                    assert(rs.take(r as int)[a] == rs[a]);
                }
            }
            if shown > widths[c] {
                widths.set(c, shown);
            }
            c = c + 1;
        }
        proof {
            assert forall|j: int| 0 <= j < widths@.len() implies widths@[j] == column_width(
                byte_len(#[trigger] hs[j]),
                rs.take(r + 1),
                j,
            ) by {
                if j >= row.len() {
                    assert(rs.take(r + 1).last() == rs[r as int]);
                }
            }
        }
        r = r + 1;
    }
    assert(rs.take(rows.len() as int) =~= rs);
    assert(widths@ =~= table_widths(hs, rs));
    proof {
        assert forall|j: int| 0 <= j < widths.len() implies widths[j] + 2 <= usize::MAX by {
            lemma_column_width_fits(byte_len(hs[j]), rs, j);
        }
    }
    let border = format_table_border(&widths);
    let header_line = format_table_header_row(headers, header_kinds, &widths, colors);
    let ghost hdr = header_line@;
    let mut lines: Vec<String> = Vec::new();
    lines.push(border.clone());
    lines.push(header_line);
    lines.push(border.clone());
    assert(arg_texts(lines@) =~= seq![border@, hdr, border@]);
    let mut k: usize = 0;
    while k < rows.len()
        invariant
            rs == row_texts(rows@),
            k <= rows.len(),
            lines@.len() == 3 + k,
            arg_texts(lines@) =~= seq![border@, hdr, border@] + Seq::new(
                k as nat,
                |q: int| table_row(rs[q], widths@),
            ),
        decreases rows.len() - k,
    {
        let line = format_table_row(&rows[k], &widths);
        assert(rs[k as int] == arg_texts(rows@[k as int]@));
        assert(line@ == table_row(rs[k as int], widths@));
        let ghost before = arg_texts(lines@);
        lines.push(line);
        assert(arg_texts(lines@) =~= before.push(line@));
        k = k + 1;
        assert(arg_texts(lines@) =~= seq![border@, hdr, border@] + Seq::new(
            k as nat,
            |q: int| table_row(rs[q], widths@),
        ));
    }
    lines.push(border);
    assert(arg_texts(lines@) =~= table_lines(hs, header_kinds@, rs, *colors));
    lines
}

/// The field a `name:type:required|optional` argument defines, or why it
/// defines none.
pub open spec fn field_arg_spec(arg: Seq<char>) -> Result<(Seq<char>, RuntimeValueType, bool), Seq<char>> {
    let parts = split_on(arg, ':');
    if parts.len() != 3 {
        Err("field spec '"@ + arg + "' must be name:type:required|optional"@)
    } else {
        match value_type_keyword(parts[1]) {
            None => Err("unsupported field type '"@ + parts[1] + "'"@),
            Some(t) => if parts[2] == "required"@ {
                Ok((parts[0], t, true))
            } else if parts[2] == "optional"@ {
                Ok((parts[0], t, false))
            } else {
                Err("unsupported field requirement '"@ + parts[2] + "'"@)
            },
        }
    }
}

/// The fields of a list of field arguments, or the first refusal.
pub open spec fn field_args_spec(args: Seq<Seq<char>>) -> Result<Seq<(Seq<char>, RuntimeValueType, bool)>, Seq<char>>
    decreases args.len(),
{
    if args.len() == 0 {
        Ok(Seq::empty())
    } else {
        match field_args_spec(args.drop_last()) {
            Err(e) => Err(e),
            Ok(done) => match field_arg_spec(args.last()) {
                Ok(f) => Ok(done.push(f)),
                Err(e) => Err(e),
            },
        }
    }
}

proof fn lemma_field_args_error_persists(m: Seq<Seq<char>>, k: int)
    requires
        0 <= k <= m.len(),
        field_args_spec(m.take(k)) is Err,
    ensures
        field_args_spec(m) == field_args_spec(m.take(k)),
    decreases m.len() - k,
{
    if k == m.len() {
        assert(m.take(k) =~= m);
    } else {
        let t = m.drop_last();
        assert(t.take(k) =~= m.take(k));
        lemma_field_args_error_persists(t, k);
    }
}

fn field_arg(arg: &str) -> (r: Result<RuntimeField, GrmError>)
    ensures
        match field_arg_spec(arg@) {
            Ok(f) => r matches Ok(x) && field_view(x) == f,
            Err(m) => r matches Err(e) && e@ == ErrorView::Constraint(m),
        },
{
    let v = chars_of(arg);
    let parts = split_chars(&v, ':');
    if parts.len() != 3 {
        return Err(GrmError::Constraint(concat(concat("field spec '", arg).as_str(), "' must be name:type:required|optional")));
    }
    let type_text = string_from_chars(&parts[1]);
    let req_text = string_from_chars(&parts[2]);
    let value_type = match RuntimeValueType::parse_keyword(type_text.as_str()) {
        Some(t) => t,
        None => {
            return Err(GrmError::Constraint(concat(concat("unsupported field type '", type_text.as_str()).as_str(), "'")));
        },
    };
    let required = if str_eq(req_text.as_str(), "required") {
        true
    } else if str_eq(req_text.as_str(), "optional") {
        false
    } else {
        return Err(GrmError::Constraint(concat(concat("unsupported field requirement '", req_text.as_str()).as_str(), "'")));
    };
    Ok(RuntimeField { name: string_from_chars(&parts[0]), value_type, required })
}

/// Reads `name:type:required|optional` field arguments.
pub fn parse_field_args(args: &Vec<String>) -> (r: Result<Vec<RuntimeField>, GrmError>)
    ensures
        match field_args_spec(arg_texts(args@)) {
            Ok(t) => r matches Ok(v) && v@.map_values(|f: RuntimeField| field_view(f)) == t,
            Err(m) => r matches Err(e) && e@ == ErrorView::Constraint(m),
        },
{
    let ghost all = arg_texts(args@);
    let mut out: Vec<RuntimeField> = Vec::new();
    let mut i: usize = 0;
    assert(all.take(0) =~= Seq::<Seq<char>>::empty());
    assert(out@.map_values(|f: RuntimeField| field_view(f)) =~= Seq::<(Seq<char>, RuntimeValueType, bool)>::empty());
    while i < args.len()
        invariant
            all == arg_texts(args@),
            i <= args.len(),
            field_args_spec(all.take(i as int)) == Ok::<Seq<(Seq<char>, RuntimeValueType, bool)>, Seq<char>>(
                out@.map_values(|f: RuntimeField| field_view(f)),
            ),
        decreases args.len() - i,
    {
        proof {
            assert(all.take(i + 1).drop_last() =~= all.take(i as int));
            assert(all.take(i + 1).last() == args@[i as int]@);
        }
        match field_arg(args[i].as_str()) {
            Ok(f) => {
                let ghost before = out@;
                let ghost fv = field_view(f);
                out.push(f);
                assert(out@.map_values(|f: RuntimeField| field_view(f)) =~= before.map_values(
                    |f: RuntimeField| field_view(f),
                ).push(fv));
            },
            Err(e) => {
                proof {
                    lemma_field_args_error_persists(all, i + 1);
                }
                return Err(e);
            },
        }
        i = i + 1;
    }
    assert(all.take(i as int) =~= all);
    Ok(out)
}

/// A `model.define` request.
#[derive(Debug, Clone)]
pub struct DefineNodeRequest {
    pub name: String,
    pub id_field: String,
    pub fields: Vec<RuntimeField>,
}

/// A `link.define` request.
#[derive(Debug, Clone)]
pub struct DefineEdgeRequest {
    pub name: String,
    pub from_model: String,
    pub to_model: String,
    pub id_field: String,
    pub fields: Vec<RuntimeField>,
}

fn tail_args(args: &Vec<String>, from: usize) -> (r: Vec<String>)
    requires
        from <= args.len(),
    ensures
        arg_texts(r@) == arg_texts(args@).skip(from as int),
{
    let mut r: Vec<String> = Vec::new();
    let mut i: usize = from;
    while i < args.len()
        invariant
            from <= i <= args.len(),
            arg_texts(r@) == arg_texts(args@).subrange(from as int, i as int),
        decreases args.len() - i,
    {
        let ghost before = r@;
        r.push(args[i].clone());
        assert(arg_texts(r@) =~= arg_texts(before).push(args@[i as int]@));
        i = i + 1;
        assert(arg_texts(r@) =~= arg_texts(args@).subrange(from as int, i as int));
    }
    assert(arg_texts(args@).subrange(from as int, i as int) =~= arg_texts(args@).skip(from as int));
    r
}

/// Reads the arguments of `model.define <Name> <id_field> [fields...]`.
pub fn parse_model_define_args(args: Vec<String>) -> (r: Result<DefineNodeRequest, GrmError>)
    ensures
        args@.len() < 2 ==> (r matches Err(e) && e@ == ErrorView::Constraint(
            "usage: model.define <Name> <id_field> [field:type:required|optional ...]"@,
        )),
        args@.len() >= 2 ==> match field_args_spec(arg_texts(args@).skip(2)) {
            Ok(fs) => r matches Ok(q) && q.name@ == args@[0]@ && q.id_field@ == args@[1]@ && q.fields@.map_values(
                |f: RuntimeField| field_view(f),
            ) == fs,
            Err(m) => r matches Err(e) && e@ == ErrorView::Constraint(m),
        },
{
    if args.len() < 2 {
        return Err(GrmError::Constraint(String::from_str("usage: model.define <Name> <id_field> [field:type:required|optional ...]")));
    }
    let rest = tail_args(&args, 2);
    let fields = parse_field_args(&rest)?;
    Ok(DefineNodeRequest { name: args[0].clone(), id_field: args[1].clone(), fields })
}

/// Reads the arguments of
/// `link.define <Name> <from_model> <to_model> <id_field> [fields...]`.
pub fn parse_link_define_args(args: Vec<String>) -> (r: Result<DefineEdgeRequest, GrmError>)
    ensures
        args@.len() < 4 ==> (r matches Err(e) && e@ == ErrorView::Constraint(
            "usage: link.define <Name> <from_model> <to_model> <id_field> [field:type:required|optional ...]"@,
        )),
        args@.len() >= 4 ==> match field_args_spec(arg_texts(args@).skip(4)) {
            Ok(fs) => r matches Ok(q) && q.name@ == args@[0]@ && q.from_model@ == args@[1]@ && q.to_model@
                == args@[2]@ && q.id_field@ == args@[3]@ && q.fields@.map_values(|f: RuntimeField| field_view(f))
                == fs,
            Err(m) => r matches Err(e) && e@ == ErrorView::Constraint(m),
        },
{
    if args.len() < 4 {
        return Err(
            GrmError::Constraint(
                String::from_str("usage: link.define <Name> <from_model> <to_model> <id_field> [field:type:required|optional ...]"),
            ),
        );
    }
    let rest = tail_args(&args, 4);
    let fields = parse_field_args(&rest)?;
    Ok(
        DefineEdgeRequest {
            name: args[0].clone(),
            from_model: args[1].clone(),
            to_model: args[2].clone(),
            id_field: args[3].clone(),
            fields,
        },
    )
}

} // verus!
