//! The catalog of MCP tools and the lookup of their help topics.

use vstd::prelude::*;
use crate::text::str_eq;

verus! {

/// A tool the MCP server offers.
#[derive(Debug, Clone, Copy, PartialEq, Eq, Structural)]
pub enum Tool {
    Help,
    ToolHelp,
    SchemaList,
    SchemaCheckpoint,
    IndexList,
    Batch,
    SchemaDefineNode,
    SchemaDefineEdge,
    NodeCreate,
    NodeUpdate,
    NodeDelete,
    NodeFind,
    EdgeCreate,
    EdgeUpdate,
    EdgeDelete,
    EdgeFind,
    Explain,
    Profile,
    Query,
    Save,
    Load,
    Import,
    Export,
}

/// The names of the tools, in catalog order.
pub open spec fn tool_names() -> Seq<Seq<char>> {
    seq![
        "grm_help"@,
        "grm_tool_help"@,
        "grm_schema_list"@,
        "grm_schema_checkpoint"@,
        "grm_index_list"@,
        "grm_batch"@,
        "grm_schema_define_node"@,
        "grm_schema_define_edge"@,
        "grm_node_create"@,
        "grm_node_update"@,
        "grm_node_delete"@,
        "grm_node_find"@,
        "grm_edge_create"@,
        "grm_edge_update"@,
        "grm_edge_delete"@,
        "grm_edge_find"@,
        "grm_explain"@,
        "grm_profile"@,
        "grm_query"@,
        "grm_save"@,
        "grm_load"@,
        "grm_import"@,
        "grm_export"@,
    ]
}

/// The tools, in catalog order.
pub open spec fn all_tools() -> Seq<Tool> {
    seq![
        Tool::Help,
        Tool::ToolHelp,
        Tool::SchemaList,
        Tool::SchemaCheckpoint,
        Tool::IndexList,
        Tool::Batch,
        Tool::SchemaDefineNode,
        Tool::SchemaDefineEdge,
        Tool::NodeCreate,
        Tool::NodeUpdate,
        Tool::NodeDelete,
        Tool::NodeFind,
        Tool::EdgeCreate,
        Tool::EdgeUpdate,
        Tool::EdgeDelete,
        Tool::EdgeFind,
        Tool::Explain,
        Tool::Profile,
        Tool::Query,
        Tool::Save,
        Tool::Load,
        Tool::Import,
        Tool::Export,
    ]
}

/// Position of a tool in the catalog.
pub open spec fn tool_index(t: Tool) -> int {
    match t {
        Tool::Help => 0,
        Tool::ToolHelp => 1,
        Tool::SchemaList => 2,
        Tool::SchemaCheckpoint => 3,
        Tool::IndexList => 4,
        Tool::Batch => 5,
        Tool::SchemaDefineNode => 6,
        Tool::SchemaDefineEdge => 7,
        Tool::NodeCreate => 8,
        Tool::NodeUpdate => 9,
        Tool::NodeDelete => 10,
        Tool::NodeFind => 11,
        Tool::EdgeCreate => 12,
        Tool::EdgeUpdate => 13,
        Tool::EdgeDelete => 14,
        Tool::EdgeFind => 15,
        Tool::Explain => 16,
        Tool::Profile => 17,
        Tool::Query => 18,
        Tool::Save => 19,
        Tool::Load => 20,
        Tool::Import => 21,
        Tool::Export => 22,
    }
}

/// The name of a tool.
pub open spec fn tool_name(t: Tool) -> Seq<char> {
    tool_names()[tool_index(t)]
}

/// The tool with name `n`, if there is one.
pub open spec fn tool_named(n: Seq<char>) -> Option<Tool> {
    if exists|i: int| 0 <= i < tool_names().len() && tool_names()[i] == n {
        Some(all_tools()[choose|i: int| 0 <= i < tool_names().len() && tool_names()[i] == n])
    } else {
        None
    }
}

/// What tells the tool names apart: the length, the fifth character and
/// the fourth character from the end.
pub open spec fn name_key(s: Seq<char>) -> (int, char, char) {
    (s.len() as int, s[4], s[s.len() - 4])
}

/// The key of each tool name, in catalog order.
pub open spec fn name_keys() -> Seq<(int, char, char)> {
    seq![
        (8, 'h', 'h'),
        (13, 't', 'h'),
        (15, 's', 'l'),
        (21, 's', 'o'),
        (14, 'i', 'l'),
        (9, 'b', 'a'),
        (22, 's', 'n'),
        (22, 's', 'e'),
        (15, 'n', 'e'),
        (15, 'n', 'd'),
        (15, 'n', 'l'),
        (13, 'n', 'f'),
        (15, 'e', 'e'),
        (15, 'e', 'd'),
        (15, 'e', 'l'),
        (13, 'e', 'f'),
        (11, 'e', 'l'),
        (11, 'p', 'f'),
        (9, 'q', 'u'),
        (8, 's', 's'),
        (8, 'l', 'l'),
        (10, 'i', 'p'),
        (10, 'e', 'p'),
    ]
}

/// The catalog's names have the keys `name_keys` lists.
proof fn lemma_name_keys()
    ensures
        tool_names().len() == 23,
        forall|i: int| 0 <= i < 23 ==> name_key(#[trigger] tool_names()[i]) == name_keys()[i],
{
    reveal_strlit("grm_help");
    reveal_strlit("grm_tool_help");
    reveal_strlit("grm_schema_list");
    reveal_strlit("grm_schema_checkpoint");
    reveal_strlit("grm_index_list");
    reveal_strlit("grm_batch");
    reveal_strlit("grm_schema_define_node");
    reveal_strlit("grm_schema_define_edge");
    reveal_strlit("grm_node_create");
    reveal_strlit("grm_node_update");
    reveal_strlit("grm_node_delete");
    reveal_strlit("grm_node_find");
    reveal_strlit("grm_edge_create");
    reveal_strlit("grm_edge_update");
    reveal_strlit("grm_edge_delete");
    reveal_strlit("grm_edge_find");
    reveal_strlit("grm_explain");
    reveal_strlit("grm_profile");
    reveal_strlit("grm_query");
    reveal_strlit("grm_save");
    reveal_strlit("grm_load");
    reveal_strlit("grm_import");
    reveal_strlit("grm_export");
}

/// No two tools share a key.
proof fn lemma_name_keys_distinct()
    ensures
        forall|i: int, j: int| 0 <= i < 23 && 0 <= j < 23 && i != j ==> #[trigger] name_keys()[i] != #[trigger] name_keys()[j],
{
}

pub proof fn lemma_tool_catalog()
    ensures
        tool_names().len() == 23,
        all_tools().len() == 23,
        forall|i: int, j: int|
            0 <= i < 23 && 0 <= j < 23 && i != j ==> tool_names()[i] != tool_names()[j],
        forall|t: Tool| 0 <= #[trigger] tool_index(t) < 23 && all_tools()[tool_index(t)] == t,
        forall|i: int| 0 <= i < 23 ==> tool_index(#[trigger] all_tools()[i]) == i,
{
    lemma_name_keys();
    lemma_name_keys_distinct();
    assert forall|i: int, j: int|
        0 <= i < 23 && 0 <= j < 23 && i != j implies tool_names()[i] != tool_names()[j] by {
        assert(name_key(tool_names()[i]) == name_keys()[i]);
        assert(name_key(tool_names()[j]) == name_keys()[j]);
        assert(name_keys()[i] != name_keys()[j]);
    }
}

impl Tool {
    /// The name of the tool.
    pub fn name(self) -> (n: &'static str)
        ensures
            n@ == tool_name(self),
    {
        match self {
            Tool::Help => "grm_help",
            Tool::ToolHelp => "grm_tool_help",
            Tool::SchemaList => "grm_schema_list",
            Tool::SchemaCheckpoint => "grm_schema_checkpoint",
            Tool::IndexList => "grm_index_list",
            Tool::Batch => "grm_batch",
            Tool::SchemaDefineNode => "grm_schema_define_node",
            Tool::SchemaDefineEdge => "grm_schema_define_edge",
            Tool::NodeCreate => "grm_node_create",
            Tool::NodeUpdate => "grm_node_update",
            Tool::NodeDelete => "grm_node_delete",
            Tool::NodeFind => "grm_node_find",
            Tool::EdgeCreate => "grm_edge_create",
            Tool::EdgeUpdate => "grm_edge_update",
            Tool::EdgeDelete => "grm_edge_delete",
            Tool::EdgeFind => "grm_edge_find",
            Tool::Explain => "grm_explain",
            Tool::Profile => "grm_profile",
            Tool::Query => "grm_query",
            Tool::Save => "grm_save",
            Tool::Load => "grm_load",
            Tool::Import => "grm_import",
            Tool::Export => "grm_export",
        }
    }

    /// The tool with the given name, if there is one.
    pub fn from_name(name: &str) -> (r: Option<Tool>)
        ensures
            r == tool_named(name@),
    {
        proof {
            lemma_tool_catalog();
        }
        if str_eq(name, "grm_help") {
            assert(tool_names()[0] == name@);
            return Some(Tool::Help);
        }
        if str_eq(name, "grm_tool_help") {
            assert(tool_names()[1] == name@);
            return Some(Tool::ToolHelp);
        }
        if str_eq(name, "grm_schema_list") {
            assert(tool_names()[2] == name@);
            return Some(Tool::SchemaList);
        }
        if str_eq(name, "grm_schema_checkpoint") {
            assert(tool_names()[3] == name@);
            return Some(Tool::SchemaCheckpoint);
        }
        if str_eq(name, "grm_index_list") {
            assert(tool_names()[4] == name@);
            return Some(Tool::IndexList);
        }
        if str_eq(name, "grm_batch") {
            assert(tool_names()[5] == name@);
            return Some(Tool::Batch);
        }
        if str_eq(name, "grm_schema_define_node") {
            assert(tool_names()[6] == name@);
            return Some(Tool::SchemaDefineNode);
        }
        if str_eq(name, "grm_schema_define_edge") {
            assert(tool_names()[7] == name@);
            return Some(Tool::SchemaDefineEdge);
        }
        if str_eq(name, "grm_node_create") {
            assert(tool_names()[8] == name@);
            return Some(Tool::NodeCreate);
        }
        if str_eq(name, "grm_node_update") {
            assert(tool_names()[9] == name@);
            return Some(Tool::NodeUpdate);
        }
        if str_eq(name, "grm_node_delete") {
            assert(tool_names()[10] == name@);
            return Some(Tool::NodeDelete);
        }
        if str_eq(name, "grm_node_find") {
            assert(tool_names()[11] == name@);
            return Some(Tool::NodeFind);
        }
        if str_eq(name, "grm_edge_create") {
            assert(tool_names()[12] == name@);
            return Some(Tool::EdgeCreate);
        }
        if str_eq(name, "grm_edge_update") {
            assert(tool_names()[13] == name@);
            return Some(Tool::EdgeUpdate);
        }
        if str_eq(name, "grm_edge_delete") {
            assert(tool_names()[14] == name@);
            return Some(Tool::EdgeDelete);
        }
        if str_eq(name, "grm_edge_find") {
            assert(tool_names()[15] == name@);
            return Some(Tool::EdgeFind);
        }
        if str_eq(name, "grm_explain") {
            assert(tool_names()[16] == name@);
            return Some(Tool::Explain);
        }
        if str_eq(name, "grm_profile") {
            assert(tool_names()[17] == name@);
            return Some(Tool::Profile);
        }
        if str_eq(name, "grm_query") {
            assert(tool_names()[18] == name@);
            return Some(Tool::Query);
        }
        if str_eq(name, "grm_save") {
            assert(tool_names()[19] == name@);
            return Some(Tool::Save);
        }
        if str_eq(name, "grm_load") {
            assert(tool_names()[20] == name@);
            return Some(Tool::Load);
        }
        if str_eq(name, "grm_import") {
            assert(tool_names()[21] == name@);
            return Some(Tool::Import);
        }
        if str_eq(name, "grm_export") {
            assert(tool_names()[22] == name@);
            return Some(Tool::Export);
        }
        assert forall|i: int| 0 <= i < tool_names().len() implies tool_names()[i] != name@ by {
        }
        None
    }
}

/// The names of every tool, in catalog order.
pub fn known_tools() -> (v: Vec<&'static str>)
    ensures
        v@.map_values(|s: &str| s@) == tool_names(),
{
    let mut v: Vec<&'static str> = Vec::new();
    v.push("grm_help");
    v.push("grm_tool_help");
    v.push("grm_schema_list");
    v.push("grm_schema_checkpoint");
    v.push("grm_index_list");
    v.push("grm_batch");
    v.push("grm_schema_define_node");
    v.push("grm_schema_define_edge");
    v.push("grm_node_create");
    v.push("grm_node_update");
    v.push("grm_node_delete");
    v.push("grm_node_find");
    v.push("grm_edge_create");
    v.push("grm_edge_update");
    v.push("grm_edge_delete");
    v.push("grm_edge_find");
    v.push("grm_explain");
    v.push("grm_profile");
    v.push("grm_query");
    v.push("grm_save");
    v.push("grm_load");
    v.push("grm_import");
    v.push("grm_export");
    assert(v@.map_values(|s: &str| s@) =~= tool_names());
    v
}

/// The help topics of the help index: the tool of every known name that
/// has one, in catalog order.
pub fn tool_help_index_topics() -> (r: Vec<Tool>)
    ensures
        r@ == all_tools(),
{
    let names = known_tools();
    let mut r: Vec<Tool> = Vec::new();
    let mut i: usize = 0;
    proof {
        lemma_tool_catalog();
    }
    while i < names.len()
        invariant
            names@.map_values(|s: &str| s@) == tool_names(),
            i <= names.len(),
            r@ == all_tools().take(i as int),
        decreases names.len() - i,
    {
        proof {
            lemma_tool_catalog();
            assert(names@.map_values(|s: &str| s@)[i as int] == names@[i as int]@);
            lemma_tool_named_at(i as int);
        }
        if let Some(t) = Tool::from_name(names[i]) {
            r.push(t);
        }
        i = i + 1;
        assert(r@ =~= all_tools().take(i as int));
    }
    assert(all_tools().take(i as int) =~= all_tools());
    r
}

/// The name at catalog position `i` names the tool at that position.
pub proof fn lemma_tool_named_at(i: int)
    requires
        0 <= i < 23,
    ensures
        tool_named(tool_names()[i]) == Some(all_tools()[i]),
{
    lemma_tool_catalog();
    let n = tool_names()[i];
    assert(exists|k: int| 0 <= k < tool_names().len() && tool_names()[k] == n);
    let k = choose|k: int| 0 <= k < tool_names().len() && tool_names()[k] == n;
    assert(k == i);
}

} // verus!
