//! Argument rules of the Python session bindings.

use vstd::prelude::*;
use crate::text::{str_eq, concat, chars_of, string_from_range, split_on, split_chars};
use crate::query::{PredicateOp, TraversalDirection, TraversalReturn, OrderDirection, OrderSpec};
use crate::config::DurabilityFormat;
use crate::service::ServiceWorkspaceMode;
use crate::schema::{RuntimeValueType, value_type_keyword};

verus! {

/// Suffixes of a filter key and the comparison each selects, in the order
/// they are tried.
pub open spec fn predicate_suffixes() -> Seq<(Seq<char>, PredicateOp)> {
    seq![
        ("!"@, PredicateOp::Ne),
        (">="@, PredicateOp::Ge),
        ("<="@, PredicateOp::Le),
        (">"@, PredicateOp::Gt),
        ("<"@, PredicateOp::Lt),
        ("~"@, PredicateOp::Contains),
    ]
}

/// Field and comparison of a filter key, trying the suffixes from position
/// `k`: the first suffix that ends the key and leaves a non-empty field wins;
/// a key with none compares for equality.
pub open spec fn split_key_from(key: Seq<char>, k: int) -> (Seq<char>, PredicateOp)
    decreases 6 - k,
{
    if k < 0 || k >= 6 {
        (key, PredicateOp::Eq)
    } else {
        let (suffix, op) = predicate_suffixes()[k];
        if suffix.len() < key.len() && key.subrange(key.len() - suffix.len(), key.len() as int) == suffix {
            (key.subrange(0, key.len() - suffix.len()), op)
        } else {
            split_key_from(key, k + 1)
        }
    }
}

fn suffix_at(k: usize) -> (r: (&'static str, PredicateOp))
    requires
        k < 6,
    ensures
        (r.0@, r.1) == predicate_suffixes()[k as int],
{
    if k == 0 {
        ("!", PredicateOp::Ne)
    } else if k == 1 {
        (">=", PredicateOp::Ge)
    } else if k == 2 {
        ("<=", PredicateOp::Le)
    } else if k == 3 {
        (">", PredicateOp::Gt)
    } else if k == 4 {
        ("<", PredicateOp::Lt)
    } else {
        ("~", PredicateOp::Contains)
    }
}

/// Splits a Python filter key such as `age>=` into its field and comparison.
pub fn split_python_predicate_key(raw_key: &str) -> (r: (String, PredicateOp))
    ensures
        (r.0@, r.1) == split_key_from(raw_key@, 0),
{
    let key = chars_of(raw_key);
    let mut k: usize = 0;
    while k < 6
        invariant
            key@ == raw_key@,
            k <= 6,
            split_key_from(raw_key@, 0) == split_key_from(raw_key@, k as int),
        decreases 6 - k,
    {
        let (suffix, op) = suffix_at(k);
        let sv = chars_of(suffix);
        if sv.len() < key.len() {
            let start = key.len() - sv.len();
            let mut same = true;
            let mut j: usize = 0;
            while j < sv.len()
                invariant
                    start + sv.len() == key.len(),
                    j <= sv.len(),
                    same == (forall|q: int| 0 <= q < j ==> key@[start + q] == sv@[q]),
                decreases sv.len() - j,
            {
                if key[start + j] != sv[j] {
                    same = false;
                }
                j = j + 1;
            }
            assert(same == (key@.subrange(start as int, key@.len() as int) == sv@)) by {
                if same {
                    assert(key@.subrange(start as int, key@.len() as int) =~= sv@);
                } else {
                    let q = choose|q: int| 0 <= q < sv.len() && key@[start + q] != sv@[q];
                    assert(key@.subrange(start as int, key@.len() as int)[q] != sv@[q]);
                }
            }
            if same {
                return (string_from_range(&key, 0, start), op);
            }
        }
        k = k + 1;
    }
    (string_from_range(&key, 0, key.len()), PredicateOp::Eq)
}

/// The traversal direction a Python `dir` value names.
pub open spec fn python_direction_spec(raw: Seq<char>) -> Option<TraversalDirection> {
    if raw == "out"@ || raw == "outgoing"@ {
        Some(TraversalDirection::Out)
    } else if raw == "in"@ || raw == "incoming"@ {
        Some(TraversalDirection::In)
    } else if raw == "both"@ {
        Some(TraversalDirection::Both)
    } else {
        None
    }
}

/// Reads a Python traversal direction.
pub fn parse_python_direction(raw: &str) -> (r: Result<TraversalDirection, String>)
    ensures
        match python_direction_spec(raw@) {
            Some(d) => r == Ok::<TraversalDirection, String>(d),
            None => r matches Err(e) && e@ == "via direction must be one of: out, in, both"@,
        },
{
    if str_eq(raw, "out") || str_eq(raw, "outgoing") {
        Ok(TraversalDirection::Out)
    } else if str_eq(raw, "in") || str_eq(raw, "incoming") {
        Ok(TraversalDirection::In)
    } else if str_eq(raw, "both") {
        Ok(TraversalDirection::Both)
    } else {
        Err(String::from_str("via direction must be one of: out, in, both"))
    }
}

/// The return mode a Python `return_` value names.
pub open spec fn python_return_spec(raw: Seq<char>) -> Option<TraversalReturn> {
    if raw == "end"@ {
        Some(TraversalReturn::End)
    } else if raw == "root"@ {
        Some(TraversalReturn::Root)
    } else if raw == "edge"@ || raw == "rel"@ {
        Some(TraversalReturn::Edge)
    } else {
        None
    }
}

/// Reads a Python traversal return mode.
pub fn parse_python_return(raw: &str) -> (r: Result<TraversalReturn, String>)
    ensures
        match python_return_spec(raw@) {
            Some(d) => r == Ok::<TraversalReturn, String>(d),
            None => r matches Err(e) && e@ == "return must be one of: root, end, edge"@,
        },
{
    if str_eq(raw, "end") {
        Ok(TraversalReturn::End)
    } else if str_eq(raw, "root") {
        Ok(TraversalReturn::Root)
    } else if str_eq(raw, "edge") || str_eq(raw, "rel") {
        Ok(TraversalReturn::Edge)
    } else {
        Err(String::from_str("return must be one of: root, end, edge"))
    }
}

/// Position of the first `:` in `s`, if any.
pub open spec fn first_colon(s: Seq<char>) -> Option<int> {
    if exists|i: int| 0 <= i < s.len() && s[i] == ':' {
        Some(choose|i: int| 0 <= i < s.len() && s[i] == ':' && forall|j: int| 0 <= j < i ==> s[j] != ':')
    } else {
        None
    }
}

/// The sort keys an `order` text names, reading its comma-separated
/// segments from position `k`, with the fields already used in `seen`.
pub open spec fn order_from(segs: Seq<Seq<char>>, k: int, seen: Set<Seq<char>>) -> Result<Seq<(Seq<char>, OrderDirection)>, Seq<char>>
    decreases segs.len() - k,
{
    if k < 0 || k >= segs.len() {
        Ok(Seq::empty())
    } else {
        let seg = segs[k];
        match first_colon(seg) {
            None => Err("order must use order=<field>:asc|desc[,<field>:asc|desc ...]"@),
            Some(c) => {
                let field = seg.subrange(0, c);
                let dir = seg.subrange(c + 1, seg.len() as int);
                if seen.contains(field) {
                    Err("duplicate order field '"@ + field + "'"@)
                } else if dir == "asc"@ || dir == "desc"@ {
                    let d = if dir == "asc"@ {
                        OrderDirection::Asc
                    } else {
                        OrderDirection::Desc
                    };
                    match order_from(segs, k + 1, seen.insert(field)) {
                        Ok(rest) => Ok(seq![(field, d)] + rest),
                        Err(e) => Err(e),
                    }
                } else {
                    Err("order direction must be asc or desc"@)
                }
            },
        }
    }
}

/// The sort keys of a Python `order` argument.
pub open spec fn python_order_spec(raw: Option<Seq<char>>) -> Result<Seq<(Seq<char>, OrderDirection)>, Seq<char>> {
    match raw {
        None => Ok(Seq::empty()),
        Some(r) => order_from(split_on(r, ','), 0, Set::empty()),
    }
}

fn find_colon(v: &Vec<char>) -> (r: Option<usize>)
    ensures
        match first_colon(v@) {
            Some(c) => r == Some(c as usize),
            None => r is None,
        },
        r matches Some(c) ==> c < v.len() && first_colon(v@) == Some(c as int),
{
    let mut i: usize = 0;
    while i < v.len()
        invariant
            i <= v.len(),
            forall|j: int| 0 <= j < i ==> v@[j] != ':',
        decreases v.len() - i,
    {
        if v[i] == ':' {
            proof {
                let c = choose|c: int| 0 <= c < v@.len() && v@[c] == ':' && forall|j: int| 0 <= j < c ==> v@[j] != ':';
                assert(c == i);
            }
            return Some(i);
        }
        i = i + 1;
    }
    None
}

pub open spec fn order_view(v: Seq<OrderSpec>) -> Seq<(Seq<char>, OrderDirection)> {
    v.map_values(|o: OrderSpec| (o.field@, o.direction))
}

pub open spec fn order_fields(v: Seq<OrderSpec>) -> Set<Seq<char>> {
    Set::new(|f: Seq<char>| exists|i: int| 0 <= i < v.len() && v[i].field@ == f)
}

fn has_order_field(order: &Vec<OrderSpec>, field: &String) -> (r: bool)
    ensures
        r == order_fields(order@).contains(field@),
{
    let mut j: usize = 0;
    while j < order.len()
        invariant
            j <= order.len(),
            forall|q: int| 0 <= q < j ==> (#[trigger] order@[q]).field@ != field@,
        decreases order.len() - j,
    {
        if str_eq(order[j].field.as_str(), field.as_str()) {
            assert(order@[j as int].field@ == field@);
            return true;
        }
        j = j + 1;
    }
    false
}

proof fn lemma_order_fields_push(v: Seq<OrderSpec>, o: OrderSpec)
    ensures
        order_fields(v.push(o)) == order_fields(v).insert(o.field@),
{
    let w = v.push(o);
    assert forall|f: Seq<char>| order_fields(w).contains(f) <==> order_fields(v).insert(o.field@).contains(f) by {
        if order_fields(w).contains(f) {
            let i = choose|i: int| 0 <= i < w.len() && w[i].field@ == f;
            if i < v.len() {
                assert(v[i] == w[i]);
            }
        }
        if order_fields(v).contains(f) {
            let i = choose|i: int| 0 <= i < v.len() && v[i].field@ == f;
            assert(w[i] == v[i]);
        }
        if f == o.field@ {
            assert(w[v.len() as int] == o);
        }
    }
    assert(order_fields(w) =~= order_fields(v).insert(o.field@));
}

/// Reads a Python `order` argument: comma-separated `field:asc|desc`
/// segments, each field at most once.
pub fn parse_python_order(raw: Option<&str>) -> (r: Result<Vec<OrderSpec>, String>)
    ensures
        match python_order_spec(match raw {
            Some(t) => Some(t@),
            None => None,
        }) {
            Ok(v) => r matches Ok(x) && order_view(x@) == v,
            Err(m) => r matches Err(e) && e@ == m,
        },
{
    let text = match raw {
        Some(t) => t,
        None => {
            let empty: Vec<OrderSpec> = Vec::new();
            assert(order_view(empty@) =~= Seq::<(Seq<char>, OrderDirection)>::empty());
            return Ok(empty);
        },
    };
    let v = chars_of(text);
    let segs = split_chars(&v, ',');
    let ghost sp = split_on(text@, ',');
    let mut order: Vec<OrderSpec> = Vec::new();
    let mut i: usize = 0;
    assert(order_view(order@) =~= Seq::<(Seq<char>, OrderDirection)>::empty());
    assert(order_fields(order@) =~= Set::<Seq<char>>::empty());
    while i < segs.len()
        invariant
            raw == Some(text),
            sp == split_on(text@, ','),
            segs@.len() == sp.len(),
            forall|k: int| 0 <= k < segs@.len() ==> (#[trigger] segs@[k])@ == sp[k],
            i <= segs.len(),
            order_from(sp, 0, Set::empty()) == match order_from(sp, i as int, order_fields(order@)) {
                Ok(rest) => Ok(order_view(order@) + rest),
                Err(e) => Err(e),
            },
        decreases segs.len() - i,
    {
        let seg = &segs[i];
        assert(seg@ == sp[i as int]);
        let c = match find_colon(seg) {
            Some(c) => c,
            None => {
                return Err(String::from_str("order must use order=<field>:asc|desc[,<field>:asc|desc ...]"));
            },
        };
        let field = string_from_range(seg, 0, c);
        let dir = string_from_range(seg, c + 1, seg.len());
        if has_order_field(&order, &field) {
            return Err(concat(concat("duplicate order field '", field.as_str()).as_str(), "'"));
        }
        assert(!order_fields(order@).contains(field@));
        let direction = if str_eq(dir.as_str(), "asc") {
            OrderDirection::Asc
        } else if str_eq(dir.as_str(), "desc") {
            OrderDirection::Desc
        } else {
            return Err(String::from_str("order direction must be asc or desc"));
        };
        let ghost before = order@;
        let ghost fv = field@;
        order.push(OrderSpec { field, direction });
        proof {
            lemma_order_fields_push(before, OrderSpec { field: order@.last().field, direction });
            assert(order@ == before.push(order@.last()));
            assert(order_view(order@) =~= order_view(before).push((fv, direction)));
            match order_from(sp, i + 1, order_fields(order@)) {
                Ok(rest) => {
                    assert(order_view(order@) + rest =~= order_view(before) + (seq![(fv, direction)] + rest));
                },
                Err(_) => {},
            }
        }
        i = i + 1;
    }
    proof {
        assert(order_view(order@) + Seq::<(Seq<char>, OrderDirection)>::empty() =~= order_view(order@));
    }
    Ok(order)
}

/// Encoding of the autocommit file of a Python session.
#[derive(Debug, Clone, Copy, PartialEq, Eq, Structural)]
pub enum PySessionFileFormat {
    Json,
    Binary,
}

/// The autocommit format a Python keyword names.
pub open spec fn py_file_format_spec(raw: Seq<char>) -> Option<PySessionFileFormat> {
    if raw == "json"@ {
        Some(PySessionFileFormat::Json)
    } else if raw == "binary"@ || raw == "bin"@ {
        Some(PySessionFileFormat::Binary)
    } else {
        None
    }
}

impl PySessionFileFormat {
    /// Reads an `autocommit_format` argument.
    pub fn parse(value: &str) -> (r: Result<PySessionFileFormat, String>)
        ensures
            match py_file_format_spec(value@) {
                Some(f) => r == Ok::<PySessionFileFormat, String>(f),
                None => r matches Err(e) && e@ == "autocommit_format must be 'json' or 'binary'"@,
            },
    {
        if str_eq(value, "json") {
            Ok(PySessionFileFormat::Json)
        } else if str_eq(value, "binary") || str_eq(value, "bin") {
            Ok(PySessionFileFormat::Binary)
        } else {
            Err(String::from_str("autocommit_format must be 'json' or 'binary'"))
        }
    }

    /// The keyword reported for the format.
    pub fn keyword(&self) -> (k: &'static str)
        ensures
            k@ == match *self {
                PySessionFileFormat::Json => "json"@,
                PySessionFileFormat::Binary => "binary"@,
            },
    {
        match self {
            PySessionFileFormat::Json => "json",
            PySessionFileFormat::Binary => "binary",
        }
    }

    /// The durability encoding of the format.
    pub fn durability_format(self) -> (d: DurabilityFormat)
        ensures
            d == match self {
                PySessionFileFormat::Json => DurabilityFormat::Json,
                PySessionFileFormat::Binary => DurabilityFormat::Binary,
            },
    {
        match self {
            PySessionFileFormat::Json => DurabilityFormat::Json,
            PySessionFileFormat::Binary => DurabilityFormat::Binary,
        }
    }
}

/// The autocommit file of a Python session.
#[derive(Debug, Clone)]
pub struct PyAutocommitTarget {
    pub format: PySessionFileFormat,
    pub path: String,
}

/// The autocommit target of a Python session: none when autocommit is off;
/// otherwise a path is required and the format keyword must be known.
pub fn configure_autocommit(
    autocommit: bool,
    autocommit_path: Option<String>,
    autocommit_format: &str,
) -> (r: Result<Option<PyAutocommitTarget>, String>)
    ensures
        !autocommit ==> (r matches Ok(t) && t is None),
        autocommit && autocommit_path is None ==> (r matches Err(e) && e@
            == "autocommit_path is required when autocommit is enabled"@),
        autocommit && autocommit_path is Some ==> match py_file_format_spec(autocommit_format@) {
            Some(f) => r matches Ok(Some(t)) && t.format == f && t.path@ == autocommit_path->0@,
            None => r matches Err(e) && e@ == "autocommit_format must be 'json' or 'binary'"@,
        },
{
    if !autocommit {
        return Ok(None);
    }
    let path = match autocommit_path {
        Some(p) => p,
        None => {
            return Err(String::from_str("autocommit_path is required when autocommit is enabled"));
        },
    };
    let format = PySessionFileFormat::parse(autocommit_format)?;
    Ok(Some(PyAutocommitTarget { format, path }))
}


/// Encoding of a service workspace opened from Python.
#[derive(Debug, Clone, Copy, PartialEq, Eq, Structural)]
pub enum PyServiceWorkspaceFormat {
    Json,
    Binary,
}

/// The workspace format a Python `workspace_format` value names.
pub open spec fn py_workspace_format_spec(raw: Seq<char>) -> Option<PyServiceWorkspaceFormat> {
    if raw == "json"@ {
        Some(PyServiceWorkspaceFormat::Json)
    } else if raw == "bin"@ || raw == "binary"@ {
        Some(PyServiceWorkspaceFormat::Binary)
    } else {
        None
    }
}

impl PyServiceWorkspaceFormat {
    /// Reads a `workspace_format` argument.
    pub fn parse(raw: &str) -> (r: Result<PyServiceWorkspaceFormat, String>)
        ensures
            match py_workspace_format_spec(raw@) {
                Some(f) => r == Ok::<PyServiceWorkspaceFormat, String>(f),
                None => r matches Err(e) && e@ == "unsupported workspace_format '"@ + raw@
                    + "', expected 'binary' or 'json'"@,
            },
    {
        if str_eq(raw, "json") {
            Ok(PyServiceWorkspaceFormat::Json)
        } else if str_eq(raw, "bin") || str_eq(raw, "binary") {
            Ok(PyServiceWorkspaceFormat::Binary)
        } else {
            Err(concat(concat("unsupported workspace_format '", raw).as_str(), "', expected 'binary' or 'json'"))
        }
    }

    /// The durability encoding of the format.
    pub fn durability_format(self) -> (d: DurabilityFormat)
        ensures
            d == match self {
                PyServiceWorkspaceFormat::Json => DurabilityFormat::Json,
                PyServiceWorkspaceFormat::Binary => DurabilityFormat::Binary,
            },
    {
        match self {
            PyServiceWorkspaceFormat::Json => DurabilityFormat::Json,
            PyServiceWorkspaceFormat::Binary => DurabilityFormat::Binary,
        }
    }
}

/// Reads the `mode` argument of a Python service session.
pub fn parse_service_mode(raw: &str) -> (r: Result<ServiceWorkspaceMode, String>)
    ensures
        raw@ == "create"@ ==> r == Ok::<ServiceWorkspaceMode, String>(ServiceWorkspaceMode::Create),
        raw@ == "open"@ ==> r == Ok::<ServiceWorkspaceMode, String>(ServiceWorkspaceMode::Open),
        raw@ != "create"@ && raw@ != "open"@ ==> (r matches Err(e) && e@ == "unsupported mode '"@ + raw@
            + "', expected 'create' or 'open'"@),
{
    proof {
        reveal_strlit("create");
        reveal_strlit("open");
        assert("create"@.len() != "open"@.len());
    }
    if str_eq(raw, "create") {
        Ok(ServiceWorkspaceMode::Create)
    } else if str_eq(raw, "open") {
        Ok(ServiceWorkspaceMode::Open)
    } else {
        Err(concat(concat("unsupported mode '", raw).as_str(), "', expected 'create' or 'open'"))
    }
}

/// The value type a Python field definition names.
pub fn parse_field_value_type(raw: &str) -> (r: Option<RuntimeValueType>)
    ensures
        r == value_type_keyword(raw@),
{
    RuntimeValueType::parse_keyword(raw)
}

/// A traversal step of a Python `via` list.
#[derive(Debug, Clone)]
pub struct TraversalStep {
    pub direction: TraversalDirection,
    /// The link to follow; `None` follows any link.
    pub edge_model: Option<String>,
    pub end_model: String,
}

/// One entry of a Python `via` list, from its `dir`, `link` and `model`
/// strings: `*` as the link follows any link.
pub fn via_step(direction: &str, link: String, model: String) -> (r: Result<TraversalStep, String>)
    ensures
        match python_direction_spec(direction@) {
            Some(d) => r is Ok && r->Ok_0.direction == d && r->Ok_0.end_model@ == model@
                && (if link@ == "*"@ { r->Ok_0.edge_model is None } else { r->Ok_0.edge_model matches Some(l) && l@ == link@ }),
            None => r matches Err(e) && e@ == "via direction must be one of: out, in, both"@,
        },
{
    let d = parse_python_direction(direction)?;
    let edge_model = if str_eq(link.as_str(), "*") {
        None
    } else {
        Some(link)
    };
    Ok(TraversalStep { direction: d, edge_model, end_model: model })
}

/// Which keywords beyond `filters` a Python node find was given.
#[derive(Debug, Clone, Copy)]
pub struct NodeFindKeywords {
    pub via: bool,
    pub end_filters: bool,
    pub edge_filters: bool,
    pub return_mode: bool,
    pub order: bool,
    pub limit: bool,
    pub offset: bool,
}

/// Whether a Python node find builds a structured request (traversal,
/// end and edge filters, return mode, order and paging) rather than reading
/// `filters` as plain adapter filters: it does as soon as any of those
/// keywords is given.
pub fn has_structured_query(k: &NodeFindKeywords) -> (r: bool)
    ensures
        r == (k.via || k.end_filters || k.edge_filters || k.return_mode || k.order || k.limit || k.offset),
{
    k.via || k.end_filters || k.edge_filters || k.return_mode || k.order || k.limit || k.offset
}

} // verus!
