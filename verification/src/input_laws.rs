//! What the input readers give for each keyword: filter-key suffixes, node
//! captions, output formats, startup flags and session options.

use vstd::prelude::*;
use crate::python::split_key_from;
use crate::query::PredicateOp;
use crate::gateway::{node_label_spec, first_caption_field};
use crate::records::{StoredNode, lookup};
use crate::value::JsonValue;
use crate::text::int_text;
use crate::session::{output_format_spec, first_term, ServiceOutputFormat};
use crate::query::QueryTerm;
use crate::cli::{session_options_from, session_startup_spec, StartupChoice, SessionStartupView, StartupLoadFormat, StartupAutocommit};
use crate::config::{apply_flag, startup_spec, default_startup, StartupView, SessionFileFormat};

use crate::python::PyServiceWorkspaceFormat;
use crate::python::PySessionFileFormat;
use crate::python::py_file_format_spec;
use crate::python::py_workspace_format_spec;
use crate::python::python_direction_spec;
use crate::python::python_return_spec;
use crate::query::TraversalDirection;
use crate::query::TraversalReturn;
use crate::schema::RuntimeValueType;
use crate::schema::value_type_keyword;
use crate::server::BackendMode;
use crate::startup::backend_keyword;

use crate::service::{workspace_mode_spec, workspace_format_spec, ServiceWorkspaceMode, ServiceWorkspaceFormat};
use crate::config::{http_parts, TransportView};
use crate::deck_query::{command_parts, FindBounds, ReadOnlyCommand, FlightDeckQueryKind};
use crate::gateway::QueryShape;

use crate::derive::{rel_attrs_spec, attr_state, RelAttrInput, RelAttrArg, RelAttrValue};
verus! {

/// A key made of a non-empty field and a one-character suffix `s`, where
/// the key's last character decides the suffix.
proof fn lemma_one_char_suffix(field: Seq<char>, s: Seq<char>)
    requires
        field.len() > 0,
        s.len() == 1,
    ensures
        (field + s).subrange((field + s).len() - 1, (field + s).len() as int) == s,
        (field + s).subrange(0, (field + s).len() - 1) == field,
        (field + s).len() - 1 == field.len(),
{
    assert((field + s).subrange((field + s).len() - 1, (field + s).len() as int) =~= s);
    assert((field + s).subrange(0, (field + s).len() - 1) =~= field);
}

/// The same for a two-character suffix.
proof fn lemma_two_char_suffix(field: Seq<char>, s: Seq<char>)
    requires
        field.len() > 0,
        s.len() == 2,
    ensures
        (field + s).subrange((field + s).len() - 2, (field + s).len() as int) == s,
        (field + s).subrange(0, (field + s).len() - 2) == field,
        (field + s).subrange((field + s).len() - 1, (field + s).len() as int) == s.subrange(1, 2),
{
    assert((field + s).subrange((field + s).len() - 2, (field + s).len() as int) =~= s);
    assert((field + s).subrange(0, (field + s).len() - 2) =~= field);
    assert((field + s).subrange((field + s).len() - 1, (field + s).len() as int) =~= s.subrange(1, 2));
}

/// A Python filter key made of a non-empty field and one of the comparison
/// suffixes splits into that field and the suffix's own comparison:
/// `!` is not-equal, `>=` at-least, `<=` at-most, `>` greater, `<` less and
/// `~` contains.
pub proof fn law_filter_suffix_selects_its_comparison(field: Seq<char>)
    requires
        field.len() > 0,
    ensures
        split_key_from(field + "!"@, 0) == (field, PredicateOp::Ne),
        split_key_from(field + ">="@, 0) == (field, PredicateOp::Ge),
        split_key_from(field + "<="@, 0) == (field, PredicateOp::Le),
        split_key_from(field + ">"@, 0) == (field, PredicateOp::Gt),
        split_key_from(field + "<"@, 0) == (field, PredicateOp::Lt),
        split_key_from(field + "~"@, 0) == (field, PredicateOp::Contains),
{
    reveal_strlit("!");
    reveal_strlit(">=");
    reveal_strlit("<=");
    reveal_strlit(">");
    reveal_strlit("<");
    reveal_strlit("~");
    reveal_with_fuel(split_key_from, 7);
    lemma_one_char_suffix(field, "!"@);
    lemma_two_char_suffix(field, ">="@);
    lemma_two_char_suffix(field, "<="@);
    lemma_one_char_suffix(field, ">"@);
    lemma_one_char_suffix(field, "<"@);
    lemma_one_char_suffix(field, "~"@);
    assert(">="@.subrange(1, 2) =~= "="@) by {
        reveal_strlit("=");
    }
    assert("<="@.subrange(1, 2) =~= "="@) by {
        reveal_strlit("=");
    }
    reveal_strlit("=");
    let k2 = field + ">="@;
    assert(k2.subrange(k2.len() - 1, k2.len() as int)[0] == '=');
    assert("!"@[0] == '!');
    assert(k2.subrange(k2.len() - 1, k2.len() as int) != "!"@);
    let k3 = field + "<="@;
    assert(k3.subrange(k3.len() - 1, k3.len() as int)[0] == '=');
    assert(k3.subrange(k3.len() - 1, k3.len() as int) != "!"@);
    assert(k3.subrange(k3.len() - 2, k3.len() as int)[0] == '<');
    assert(">="@[0] == '>');
    assert(k3.subrange(k3.len() - 2, k3.len() as int) != ">="@);
    let k4 = field + ">"@;
    assert(k4.len() >= 2);
    assert(k4.subrange(k4.len() - 2, k4.len() as int)[1] == '>');
    let k5 = field + "<"@;
    assert(k5.subrange(k5.len() - 2, k5.len() as int)[1] == '<');
    let k6 = field + "~"@;
    assert(k6.subrange(k6.len() - 2, k6.len() as int)[1] == '~');
}

/// The model a node's caption starts with: its first label, or `Node`.
pub open spec fn caption_model(node: StoredNode) -> Seq<char> {
    if node.labels@.len() > 0 {
        node.labels@[0]@
    } else {
        "Node"@
    }
}

/// A node's caption names it by the first of `name`, `title`, `path`,
/// `question` and `text` that it has: a node with a string `name` is
/// captioned `<model>: <name>` whatever else it has; one without `name` and
/// with a string `title` is captioned by the title; and so on down the list.
/// A node with none of them is captioned `<model> #<id>`.
pub proof fn law_caption_prefers_name_then_title(node: StoredNode)
    ensures
        lookup(node.props@, "name"@) matches Some(JsonValue::String(v)) ==> node_label_spec(node)
            == caption_model(node) + ": "@ + v@,
        lookup(node.props@, "name"@) is None ==> (lookup(node.props@, "title"@) matches Some(
            JsonValue::String(v),
        ) ==> node_label_spec(node) == caption_model(node) + ": "@ + v@),
        lookup(node.props@, "name"@) is None && lookup(node.props@, "title"@) is None ==> (lookup(
            node.props@,
            "path"@,
        ) matches Some(JsonValue::String(v)) ==> node_label_spec(node) == caption_model(node) + ": "@ + v@),
        lookup(node.props@, "name"@) is None && lookup(node.props@, "title"@) is None && lookup(
            node.props@,
            "path"@,
        ) is None ==> (lookup(node.props@, "question"@) matches Some(JsonValue::String(v)) ==> node_label_spec(
            node,
        ) == caption_model(node) + ": "@ + v@),
        lookup(node.props@, "name"@) is None && lookup(node.props@, "title"@) is None && lookup(
            node.props@,
            "path"@,
        ) is None && lookup(node.props@, "question"@) is None ==> (lookup(node.props@, "text"@) matches Some(
            JsonValue::String(v),
        ) ==> node_label_spec(node) == caption_model(node) + ": "@ + v@),
        lookup(node.props@, "name"@) is None && lookup(node.props@, "title"@) is None && lookup(
            node.props@,
            "path"@,
        ) is None && lookup(node.props@, "question"@) is None && lookup(node.props@, "text"@) is None
            ==> node_label_spec(node) == caption_model(node) + " #"@ + int_text(node.id as int),
{
    reveal_with_fuel(first_caption_field, 6);
}

/// The first `format=` term of a find chooses its output: `default`,
/// `jsonl`, `table` and `graph` each select their own format, any other word
/// is refused, and a find without the term writes the default format.
pub proof fn law_format_word_selects_its_format(terms: Seq<QueryTerm>)
    ensures
        first_term(terms, "format"@) is None ==> output_format_spec(terms) == Ok::<ServiceOutputFormat, Seq<char>>(
            ServiceOutputFormat::Default,
        ),
        first_term(terms, "format"@) matches Some(i) ==> {
            let w = terms[i].value@;
            &&& w == "default"@ ==> output_format_spec(terms) == Ok::<ServiceOutputFormat, Seq<char>>(ServiceOutputFormat::Default)
            &&& w == "jsonl"@ ==> output_format_spec(terms) == Ok::<ServiceOutputFormat, Seq<char>>(ServiceOutputFormat::Jsonl)
            &&& w == "table"@ ==> output_format_spec(terms) == Ok::<ServiceOutputFormat, Seq<char>>(ServiceOutputFormat::Table)
            &&& w == "graph"@ ==> output_format_spec(terms) == Ok::<ServiceOutputFormat, Seq<char>>(ServiceOutputFormat::Graph)
            &&& (w != "default"@ && w != "jsonl"@ && w != "table"@ && w != "graph"@) ==> output_format_spec(terms) is Err
        },
{
    reveal_strlit("default");
    reveal_strlit("jsonl");
    reveal_strlit("table");
    reveal_strlit("graph");
    assert("jsonl"@ != "default"@) by {
        assert("jsonl"@.len() != "default"@.len());
    }
    assert("table"@ != "default"@) by {
        assert("table"@.len() != "default"@.len());
    }
    assert("table"@ != "jsonl"@) by {
        assert("table"@[0] != "jsonl"@[0]);
    }
    assert("graph"@ != "default"@) by {
        assert("graph"@.len() != "default"@.len());
    }
    assert("graph"@ != "jsonl"@) by {
        assert("graph"@[0] != "jsonl"@[0]);
    }
    assert("graph"@ != "table"@) by {
        assert("graph"@[0] != "table"@[0]);
    }
}

/// What tells the value flags of the server apart: the length and the
/// third and eighth characters.
spec fn flag_key(s: Seq<char>) -> (int, char, char) {
    (s.len() as int, s[2], s[7])
}

/// The value flags of the server are different words.
proof fn lemma_flag_keys()
    ensures
        flag_key("--load-json"@) == (11int, 'l', 'j'),
        flag_key("--load-bin"@) == (10int, 'l', 'b'),
        flag_key("--import-json"@) == (13int, 'i', 't'),
        flag_key("--export-json"@) == (13int, 'e', 't'),
        flag_key("--transport"@) == (11int, 't', 'p'),
        flag_key("--http-bind"@) == (11int, 'h', 'b'),
        flag_key("--http-path"@) == (11int, 'h', 'p'),
        flag_key("--http-allowed-host"@) == (19int, 'h', 'a'),
        flag_key("--autocommit-json"@) == (17int, 'a', 'o'),
        flag_key("--autocommit-bin"@) == (16int, 'a', 'o'),
{
    reveal_strlit("--load-json");
    reveal_strlit("--load-bin");
    reveal_strlit("--import-json");
    reveal_strlit("--export-json");
    reveal_strlit("--transport");
    reveal_strlit("--http-bind");
    reveal_strlit("--http-path");
    reveal_strlit("--http-allowed-host");
    reveal_strlit("--autocommit-json");
    reveal_strlit("--autocommit-bin");
}

/// Each file flag of the server sets its own option to the value that
/// follows it and leaves every other option as it was: `--load-json`,
/// `--load-bin`, `--import-json`, `--export-json`, and the two autocommit
/// flags with their own file format.
pub proof fn law_file_flag_sets_its_own_option(o: StartupView, v: Seq<char>, reading: Result<Seq<char>, Seq<char>>)
    ensures
        apply_flag(o, "--load-json"@, v, reading) == Ok::<StartupView, Seq<char>>(StartupView { load_json: Some(v), ..o }),
        apply_flag(o, "--load-bin"@, v, reading) == Ok::<StartupView, Seq<char>>(StartupView { load_bin: Some(v), ..o }),
        apply_flag(o, "--import-json"@, v, reading) == Ok::<StartupView, Seq<char>>(StartupView { import_json: Some(v), ..o }),
        apply_flag(o, "--export-json"@, v, reading) == Ok::<StartupView, Seq<char>>(StartupView { export_json: Some(v), ..o }),
        apply_flag(o, "--autocommit-json"@, v, reading) == Ok::<StartupView, Seq<char>>(
            StartupView { autocommit: Some((SessionFileFormat::Json, v)), ..o },
        ),
        apply_flag(o, "--autocommit-bin"@, v, reading) == Ok::<StartupView, Seq<char>>(
            StartupView { autocommit: Some((SessionFileFormat::Binary, v)), ..o },
        ),
{
    lemma_flag_keys();
}

/// Starting the server with only `--load-bin <path>` loads that binary file
/// and nothing else; with only `--load-json <path>`, that JSON file.
pub proof fn law_load_flags_parse_to_their_own_file(path: Seq<char>, binds: Seq<Result<Seq<char>, Seq<char>>>)
    ensures
        startup_spec(seq!["--load-bin"@, path], binds) == Ok::<StartupView, Seq<char>>(
            StartupView { load_bin: Some(path), ..default_startup() },
        ),
        startup_spec(seq!["--load-json"@, path], binds) == Ok::<StartupView, Seq<char>>(
            StartupView { load_json: Some(path), ..default_startup() },
        ),
{
    lemma_flag_keys();
    law_file_flag_sets_its_own_option(default_startup(), path, binds[1]);
    reveal_with_fuel(crate::config::startup_from, 3);
}

/// The words of the session options are different from one another.
proof fn lemma_session_words()
    ensures
        "--autocommit"@ != "--script"@,
        "--autocommit"@ != "--load"@,
        "--load"@ != "--script"@,
        "on"@ != "off"@,
        "json"@ != "bin"@,
{
    reveal_strlit("--autocommit");
    reveal_strlit("--script");
    reveal_strlit("--load");
    reveal_strlit("on");
    reveal_strlit("off");
    reveal_strlit("json");
    reveal_strlit("bin");
    assert("--autocommit"@.len() != "--script"@.len());
    assert("--autocommit"@.len() != "--load"@.len());
    assert("--load"@.len() != "--script"@.len());
    assert("on"@.len() != "off"@.len());
    assert("json"@.len() != "bin"@.len());
}

/// `--autocommit off` turns autocommit off and `--autocommit on` turns it
/// on, wherever they stand among the session options; the options after
/// them are read as before.
pub proof fn law_autocommit_word_selects_its_choice(args: Seq<Seq<char>>, i: int, c: StartupChoice)
    requires
        0 <= i,
        i + 1 < args.len(),
        args[i] == "--autocommit"@,
    ensures
        args[i + 1] == "off"@ ==> session_options_from(args, i, c) == session_options_from(
            args,
            i + 2,
            StartupChoice { autocommit: StartupAutocommit::Off, ..c },
        ),
        args[i + 1] == "on"@ ==> session_options_from(args, i, c) == session_options_from(
            args,
            i + 2,
            StartupChoice { autocommit: StartupAutocommit::On, ..c },
        ),
{
    lemma_session_words();
}

/// Loading a session file with `--autocommit off` gives a loaded session
/// with autocommit off, and with `--autocommit on` one with autocommit on,
/// for either file format and any path.
pub proof fn law_load_with_autocommit_keeps_the_choice(path: Seq<char>)
    ensures
        session_startup_spec(seq!["--load"@, "json"@, path, "--autocommit"@, "off"@]) == Ok::<SessionStartupView, Seq<char>>(
            SessionStartupView::Load { format: StartupLoadFormat::Json, path, autocommit: StartupAutocommit::Off },
        ),
        session_startup_spec(seq!["--load"@, "json"@, path, "--autocommit"@, "on"@]) == Ok::<SessionStartupView, Seq<char>>(
            SessionStartupView::Load { format: StartupLoadFormat::Json, path, autocommit: StartupAutocommit::On },
        ),
        session_startup_spec(seq!["--load"@, "bin"@, path, "--autocommit"@, "off"@]) == Ok::<SessionStartupView, Seq<char>>(
            SessionStartupView::Load { format: StartupLoadFormat::Binary, path, autocommit: StartupAutocommit::Off },
        ),
        session_startup_spec(seq!["--load"@, "bin"@, path, "--autocommit"@, "on"@]) == Ok::<SessionStartupView, Seq<char>>(
            SessionStartupView::Load { format: StartupLoadFormat::Binary, path, autocommit: StartupAutocommit::On },
        ),
{
    lemma_session_words();
    reveal_with_fuel(session_options_from, 4);
}

/// A `via` direction reads as outgoing exactly for `out` and `outgoing`, as
/// incoming exactly for `in` and `incoming`, and as both ways exactly for
/// `both`; every other word is refused.
pub proof fn law_direction_words(w: Seq<char>)
    ensures
        python_direction_spec(w) == Some(TraversalDirection::Out) <==> (w == "out"@ || w == "outgoing"@),
        python_direction_spec(w) == Some(TraversalDirection::In) <==> (w == "in"@ || w == "incoming"@),
        python_direction_spec(w) == Some(TraversalDirection::Both) <==> (w == "both"@),
        python_direction_spec(w) is None <==> !(w == "out"@ || w == "outgoing"@ || w == "in"@ || w == "incoming"@ || w == "both"@),
{
    reveal_strlit("out");
    reveal_strlit("outgoing");
    reveal_strlit("in");
    reveal_strlit("incoming");
    reveal_strlit("both");
    assert("out"@ != "outgoing"@) by {
        assert("out"@.len() != "outgoing"@.len());
    }
    assert("out"@ != "in"@) by {
        assert("out"@.len() != "in"@.len());
    }
    assert("out"@ != "incoming"@) by {
        assert("out"@.len() != "incoming"@.len());
    }
    assert("out"@ != "both"@) by {
        assert("out"@.len() != "both"@.len());
    }
    assert("outgoing"@ != "in"@) by {
        assert("outgoing"@.len() != "in"@.len());
    }
    assert("outgoing"@ != "incoming"@) by {
        assert("outgoing"@[0] != "incoming"@[0]);
    }
    assert("outgoing"@ != "both"@) by {
        assert("outgoing"@.len() != "both"@.len());
    }
    assert("in"@ != "incoming"@) by {
        assert("in"@.len() != "incoming"@.len());
    }
    assert("in"@ != "both"@) by {
        assert("in"@.len() != "both"@.len());
    }
    assert("incoming"@ != "both"@) by {
        assert("incoming"@.len() != "both"@.len());
    }
}

/// A `return` value reads as the end node exactly for `end`, the root exactly
/// for `root`, and the edge exactly for `edge` and `rel`; every other word is
/// refused.
pub proof fn law_return_words(w: Seq<char>)
    ensures
        python_return_spec(w) == Some(TraversalReturn::End) <==> (w == "end"@),
        python_return_spec(w) == Some(TraversalReturn::Root) <==> (w == "root"@),
        python_return_spec(w) == Some(TraversalReturn::Edge) <==> (w == "edge"@ || w == "rel"@),
        python_return_spec(w) is None <==> !(w == "end"@ || w == "root"@ || w == "edge"@ || w == "rel"@),
{
    reveal_strlit("end");
    reveal_strlit("root");
    reveal_strlit("edge");
    reveal_strlit("rel");
    assert("end"@ != "root"@) by {
        assert("end"@.len() != "root"@.len());
    }
    assert("end"@ != "edge"@) by {
        assert("end"@.len() != "edge"@.len());
    }
    assert("end"@ != "rel"@) by {
        assert("end"@[0] != "rel"@[0]);
    }
    assert("root"@ != "edge"@) by {
        assert("root"@[0] != "edge"@[0]);
    }
    assert("root"@ != "rel"@) by {
        assert("root"@.len() != "rel"@.len());
    }
    assert("edge"@ != "rel"@) by {
        assert("edge"@.len() != "rel"@.len());
    }
}

/// An autocommit file format is JSON exactly for `json` and binary exactly
/// for `binary` and `bin`; every other word is refused.
pub proof fn law_session_file_format_words(w: Seq<char>)
    ensures
        py_file_format_spec(w) == Some(PySessionFileFormat::Json) <==> (w == "json"@),
        py_file_format_spec(w) == Some(PySessionFileFormat::Binary) <==> (w == "binary"@ || w == "bin"@),
        py_file_format_spec(w) is None <==> !(w == "json"@ || w == "binary"@ || w == "bin"@),
{
    reveal_strlit("json");
    reveal_strlit("binary");
    reveal_strlit("bin");
    assert("json"@ != "binary"@) by {
        assert("json"@.len() != "binary"@.len());
    }
    assert("json"@ != "bin"@) by {
        assert("json"@.len() != "bin"@.len());
    }
    assert("binary"@ != "bin"@) by {
        assert("binary"@.len() != "bin"@.len());
    }
}

/// A service workspace format given to Python is JSON exactly for `json`
/// and binary exactly for `bin` and `binary`; every other word is refused.
pub proof fn law_python_workspace_format_words(w: Seq<char>)
    ensures
        py_workspace_format_spec(w) == Some(PyServiceWorkspaceFormat::Json) <==> (w == "json"@),
        py_workspace_format_spec(w) == Some(PyServiceWorkspaceFormat::Binary) <==> (w == "bin"@ || w == "binary"@),
        py_workspace_format_spec(w) is None <==> !(w == "json"@ || w == "bin"@ || w == "binary"@),
{
    reveal_strlit("json");
    reveal_strlit("bin");
    reveal_strlit("binary");
    assert("json"@ != "bin"@) by {
        assert("json"@.len() != "bin"@.len());
    }
    assert("json"@ != "binary"@) by {
        assert("json"@.len() != "binary"@.len());
    }
    assert("bin"@ != "binary"@) by {
        assert("bin"@.len() != "binary"@.len());
    }
}

/// A field type keyword names the string, integer, floating-point or
/// boolean type exactly for `string`, `int`, `float` and `bool`; every
/// other word is refused.
pub proof fn law_value_type_words(w: Seq<char>)
    ensures
        value_type_keyword(w) == Some(RuntimeValueType::String) <==> (w == "string"@),
        value_type_keyword(w) == Some(RuntimeValueType::Int) <==> (w == "int"@),
        value_type_keyword(w) == Some(RuntimeValueType::Float) <==> (w == "float"@),
        value_type_keyword(w) == Some(RuntimeValueType::Bool) <==> (w == "bool"@),
        value_type_keyword(w) is None <==> !(w == "string"@ || w == "int"@ || w == "float"@ || w == "bool"@),
{
    reveal_strlit("string");
    reveal_strlit("int");
    reveal_strlit("float");
    reveal_strlit("bool");
    assert("string"@ != "int"@) by {
        assert("string"@.len() != "int"@.len());
    }
    assert("string"@ != "float"@) by {
        assert("string"@.len() != "float"@.len());
    }
    assert("string"@ != "bool"@) by {
        assert("string"@.len() != "bool"@.len());
    }
    assert("int"@ != "float"@) by {
        assert("int"@.len() != "float"@.len());
    }
    assert("int"@ != "bool"@) by {
        assert("int"@.len() != "bool"@.len());
    }
    assert("float"@ != "bool"@) by {
        assert("float"@.len() != "bool"@.len());
    }
}

/// `GRM_BACKEND` selects Neo4j exactly for `neo4j`, the gRPC service exactly
/// for `grpc`, and the in-process session exactly for `memory`, `inmemory`
/// and `in-memory`; every other word is refused.
pub proof fn law_backend_words(w: Seq<char>)
    ensures
        backend_keyword(w) == Some(BackendMode::Neo4j) <==> (w == "neo4j"@),
        backend_keyword(w) == Some(BackendMode::Service) <==> (w == "grpc"@),
        backend_keyword(w) == Some(BackendMode::Local) <==> (w == "memory"@ || w == "inmemory"@ || w == "in-memory"@),
        backend_keyword(w) is None <==> !(w == "neo4j"@ || w == "grpc"@ || w == "memory"@ || w == "inmemory"@ || w == "in-memory"@),
{
    reveal_strlit("neo4j");
    reveal_strlit("grpc");
    reveal_strlit("memory");
    reveal_strlit("inmemory");
    reveal_strlit("in-memory");
    assert("neo4j"@ != "grpc"@) by {
        assert("neo4j"@.len() != "grpc"@.len());
    }
    assert("neo4j"@ != "memory"@) by {
        assert("neo4j"@.len() != "memory"@.len());
    }
    assert("neo4j"@ != "inmemory"@) by {
        assert("neo4j"@.len() != "inmemory"@.len());
    }
    assert("neo4j"@ != "in-memory"@) by {
        assert("neo4j"@.len() != "in-memory"@.len());
    }
    assert("grpc"@ != "memory"@) by {
        assert("grpc"@.len() != "memory"@.len());
    }
    assert("grpc"@ != "inmemory"@) by {
        assert("grpc"@.len() != "inmemory"@.len());
    }
    assert("grpc"@ != "in-memory"@) by {
        assert("grpc"@.len() != "in-memory"@.len());
    }
    assert("memory"@ != "inmemory"@) by {
        assert("memory"@.len() != "inmemory"@.len());
    }
    assert("memory"@ != "in-memory"@) by {
        assert("memory"@.len() != "in-memory"@.len());
    }
    assert("inmemory"@ != "in-memory"@) by {
        assert("inmemory"@.len() != "in-memory"@.len());
    }
}

/// `GRM_SERVICE_WORKSPACE_MODE` creates the workspace exactly for `create`
/// and opens it exactly for `open`; every other word is refused.
pub proof fn law_workspace_mode_words(w: Seq<char>)
    ensures
        workspace_mode_spec(w) == Some(ServiceWorkspaceMode::Create) <==> (w == "create"@),
        workspace_mode_spec(w) == Some(ServiceWorkspaceMode::Open) <==> (w == "open"@),
        workspace_mode_spec(w) is None <==> !(w == "create"@ || w == "open"@),
{
    reveal_strlit("create");
    reveal_strlit("open");
    assert("create"@ != "open"@) by {
        assert("create"@.len() != "open"@.len());
    }
}

/// `GRM_SERVICE_WORKSPACE_FORMAT` is JSON exactly for `json` and binary
/// exactly for `bin` and `binary`; every other word is refused.
pub proof fn law_workspace_format_words(w: Seq<char>)
    ensures
        workspace_format_spec(w) == Some(ServiceWorkspaceFormat::Json) <==> (w == "json"@),
        workspace_format_spec(w) == Some(ServiceWorkspaceFormat::Binary) <==> (w == "bin"@ || w == "binary"@),
        workspace_format_spec(w) is None <==> !(w == "json"@ || w == "bin"@ || w == "binary"@),
{
    reveal_strlit("json");
    reveal_strlit("bin");
    reveal_strlit("binary");
    assert("json"@ != "bin"@) by {
        assert("json"@.len() != "bin"@.len());
    }
    assert("json"@ != "binary"@) by {
        assert("json"@.len() != "binary"@.len());
    }
    assert("bin"@ != "binary"@) by {
        assert("bin"@.len() != "binary"@.len());
    }
}

/// `--transport stdio` selects standard input and output, and `--transport
/// http` or `--transport streamable-http` selects HTTP, keeping any bind
/// address, path and allowed hosts already given; every other option is
/// left as it was. HTTP without earlier HTTP options binds `127.0.0.1:8080`,
/// serves `/mcp` and accepts the hosts `localhost`, `127.0.0.1` and `::1`.
pub proof fn law_transport_words(o: StartupView, reading: Result<Seq<char>, Seq<char>>)
    ensures
        apply_flag(o, "--transport"@, "stdio"@, reading) == Ok::<StartupView, Seq<char>>(
            StartupView { transport: TransportView::Stdio, ..o },
        ),
        apply_flag(o, "--transport"@, "http"@, reading) == Ok::<StartupView, Seq<char>>(
            StartupView { transport: TransportView::Http { bind: http_parts(o.transport).0, path: http_parts(o.transport).1, allowed_hosts: http_parts(o.transport).2 }, ..o },
        ),
        apply_flag(o, "--transport"@, "streamable-http"@, reading) == Ok::<StartupView, Seq<char>>(
            StartupView { transport: TransportView::Http { bind: http_parts(o.transport).0, path: http_parts(o.transport).1, allowed_hosts: http_parts(o.transport).2 }, ..o },
        ),
        http_parts(TransportView::Stdio) == ("127.0.0.1:8080"@, "/mcp"@, seq!["localhost"@, "127.0.0.1"@, "::1"@]),
{
    lemma_flag_keys();
    reveal_strlit("stdio");
    reveal_strlit("http");
    reveal_strlit("streamable-http");
    assert("stdio"@ != "http"@) by {
        assert("stdio"@.len() != "http"@.len());
    }
    assert("stdio"@ != "streamable-http"@) by {
        assert("stdio"@.len() != "streamable-http"@.len());
    }
    assert("http"@ != "streamable-http"@) by {
        assert("http"@.len() != "streamable-http"@.len());
    }
}

/// `--load json <path>` loads that path as JSON and `--load bin <path>` as
/// binary, wherever the option stands; `--script <path>` runs that script.
pub proof fn law_load_and_script_words(args: Seq<Seq<char>>, i: int, c: StartupChoice)
    requires
        0 <= i,
        i + 2 < args.len(),
    ensures
        args[i] == "--load"@ && args[i + 1] == "json"@ ==> session_options_from(args, i, c) == session_options_from(
            args,
            i + 3,
            StartupChoice { load: Some((StartupLoadFormat::Json, args[i + 2])), ..c },
        ),
        args[i] == "--load"@ && args[i + 1] == "bin"@ ==> session_options_from(args, i, c) == session_options_from(
            args,
            i + 3,
            StartupChoice { load: Some((StartupLoadFormat::Binary, args[i + 2])), ..c },
        ),
        args[i] == "--script"@ ==> session_options_from(args, i, c) == session_options_from(
            args,
            i + 2,
            StartupChoice { script: Some(args[i + 1]), ..c },
        ),
{
    lemma_session_words();
}

/// A query-bar find runs as a plain query, an explained query or a profiled
/// query as its command says, on nodes or on edges as its command says,
/// with the bounds the command parser read; other commands are not run.
pub proof fn law_query_bar_command_kinds(b: FindBounds)
    ensures
        command_parts(ReadOnlyCommand::NodeFind(b)) == Some((FlightDeckQueryKind::Query, QueryShape::NodeFind, b)),
        command_parts(ReadOnlyCommand::EdgeFind(b)) == Some((FlightDeckQueryKind::Query, QueryShape::EdgeFind, b)),
        command_parts(ReadOnlyCommand::ExplainNodeFind(b)) == Some((FlightDeckQueryKind::Explain, QueryShape::NodeFind, b)),
        command_parts(ReadOnlyCommand::ExplainEdgeFind(b)) == Some((FlightDeckQueryKind::Explain, QueryShape::EdgeFind, b)),
        command_parts(ReadOnlyCommand::ProfileNodeFind(b)) == Some((FlightDeckQueryKind::Profile, QueryShape::NodeFind, b)),
        command_parts(ReadOnlyCommand::ProfileEdgeFind(b)) == Some((FlightDeckQueryKind::Profile, QueryShape::EdgeFind, b)),
        command_parts(ReadOnlyCommand::Other) is None,
{
}

/// The value a link attribute gives for `from` or `to`: the type it names.
pub open spec fn named_type(q: RelAttrArg) -> Option<Seq<char>> {
    match q.value {
        RelAttrValue::Str { text, as_type } => match as_type {
            Ok(t) => Some(t@),
            Err(_) => None,
        },
        RelAttrValue::Other => None,
    }
}

/// The text a link attribute gives for `ty`.
pub open spec fn named_text(q: RelAttrArg) -> Option<Seq<char>> {
    match q.value {
        RelAttrValue::Str { text, as_type } => Some(text@),
        RelAttrValue::Other => None,
    }
}

/// A link struct's `#[grm(from = .., to = .., ty = ..)]` gives the source
/// type from `from`, the target type from `to` and the link type from `ty`,
/// whatever the order of the three items.
pub proof fn law_rel_attribute_keys(a: RelAttrInput, f: RelAttrArg, t: RelAttrArg, l: RelAttrArg)
    requires
        a.syntax_error is None,
        a.args@ == seq![f, t, l] || a.args@ == seq![l, f, t] || a.args@ == seq![t, l, f],
        f.key@ == "from"@,
        t.key@ == "to"@,
        l.key@ == "ty"@,
        named_type(f) is Some,
        named_type(t) is Some,
        named_text(l) is Some,
    ensures
        rel_attrs_spec(seq![a]) == Ok::<(Seq<char>, Seq<char>, Seq<char>), Seq<char>>(
            (named_type(f)->0, named_type(t)->0, named_text(l)->0),
        ),
{
    reveal_strlit("from");
    reveal_strlit("to");
    reveal_strlit("ty");
    assert("from"@ != "to"@) by {
        assert("from"@.len() != "to"@.len());
    }
    assert("from"@ != "ty"@) by {
        assert("from"@.len() != "ty"@.len());
    }
    assert("to"@ != "ty"@) by {
        assert("to"@[1] != "ty"@[1]);
    }
    let s = a.args@;
    reveal_with_fuel(attr_state, 4);
    reveal_with_fuel(crate::derive::merged_attrs, 2);
    assert(seq![a].drop_last() =~= Seq::<RelAttrInput>::empty());
    assert(seq![a].last() == a);
    let tf = named_type(f)->0;
    let tt = named_type(t)->0;
    let tl = named_text(l)->0;
    if s == seq![f, t, l] {
        assert(s.drop_last() =~= seq![f, t]);
        assert(seq![f, t].drop_last() =~= seq![f]);
        assert(seq![f].drop_last() =~= Seq::<RelAttrArg>::empty());
        assert(attr_state(seq![f]) == Ok::<crate::derive::RelAttrState, Seq<char>>((Some(tf), None, None)));
        assert(attr_state(seq![f, t]) == Ok::<crate::derive::RelAttrState, Seq<char>>((Some(tf), Some(tt), None)));
        assert(attr_state(s) == Ok::<crate::derive::RelAttrState, Seq<char>>((Some(tf), Some(tt), Some(tl))));
    } else if s == seq![l, f, t] {
        assert(s.drop_last() =~= seq![l, f]);
        assert(seq![l, f].drop_last() =~= seq![l]);
        assert(seq![l].drop_last() =~= Seq::<RelAttrArg>::empty());
        assert(attr_state(seq![l]) == Ok::<crate::derive::RelAttrState, Seq<char>>((None, None, Some(tl))));
        assert(attr_state(seq![l, f]) == Ok::<crate::derive::RelAttrState, Seq<char>>((Some(tf), None, Some(tl))));
        assert(attr_state(s) == Ok::<crate::derive::RelAttrState, Seq<char>>((Some(tf), Some(tt), Some(tl))));
    } else {
        assert(s.drop_last() =~= seq![t, l]);
        assert(seq![t, l].drop_last() =~= seq![t]);
        assert(seq![t].drop_last() =~= Seq::<RelAttrArg>::empty());
        assert(attr_state(seq![t]) == Ok::<crate::derive::RelAttrState, Seq<char>>((None, Some(tt), None)));
        assert(attr_state(seq![t, l]) == Ok::<crate::derive::RelAttrState, Seq<char>>((None, Some(tt), Some(tl))));
        assert(attr_state(s) == Ok::<crate::derive::RelAttrState, Seq<char>>((Some(tf), Some(tt), Some(tl))));
    }
}

} // verus!
