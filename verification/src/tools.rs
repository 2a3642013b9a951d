//! Decisions of the MCP tool handlers that do not depend on a backend:
//! id-filter aliases, introspection commands, the query-language digest,
//! backend status counts, unsupported surfaces and resource routing.

use vstd::prelude::*;
use crate::error::{GrmError, ErrorView};
use crate::text::{
    str_eq, concat, chars_of, parse_i64, parse_i64_spec, trim, trim_str, split_on, split_chars,
    string_from_chars, push_char,
};
use crate::schema::{value_to_raw, raw_value_spec};
use crate::value::JsonValue;
use crate::records::{find_key, find_key_exec, lookup, lemma_find_key_bounds};

verus! {

/// The outcome of merging an `id` filter with the model's own id-field
/// filter: they must agree when both are given.
pub open spec fn merge_id_spec(request_id: Option<i64>, model_id: Option<i64>) -> Option<Option<i64>> {
    match (request_id, model_id) {
        (Some(l), Some(r)) => if l != r {
            None
        } else {
            Some(request_id)
        },
        (None, Some(id)) => Some(Some(id)),
        _ => Some(request_id),
    }
}

/// Merges the id given under the model's id-field name into the request's id
/// filter.
pub fn merge_model_id_alias(
    request_id: &mut Option<i64>,
    model_id: Option<i64>,
    subject: &str,
    id_field_name: &str,
) -> (r: Result<(), GrmError>)
    ensures
        match merge_id_spec(*old(request_id), model_id) {
            Some(v) => r is Ok && *final(request_id) == v,
            None => *final(request_id) == *old(request_id) && (r matches Err(e) && e@ == ErrorView::Constraint(
                "conflicting "@ + subject@ + " id filters 'id' and '"@ + id_field_name@ + "'"@,
            )),
        },
{
    match (*request_id, model_id) {
        (Some(left), Some(right)) => {
            if left != right {
                return Err(
                    GrmError::Constraint(
                        concat(
                            concat(
                                concat(concat("conflicting ", subject).as_str(), " id filters 'id' and '").as_str(),
                                id_field_name,
                            ).as_str(),
                            "'",
                        ),
                    ),
                );
            }
            Ok(())
        },
        (None, Some(id)) => {
            *request_id = Some(id);
            Ok(())
        },
        _ => Ok(()),
    }
}

/// Position of the first pair with key `k` in a list of text pairs.
pub open spec fn find_text_key(m: Seq<(String, String)>, k: Seq<char>) -> Option<int>
    decreases m.len(),
{
    if m.len() == 0 {
        None
    } else {
        match find_text_key(m.drop_last(), k) {
            Some(i) => Some(i),
            None => if m.last().0@ == k {
                Some(m.len() - 1)
            } else {
                None
            },
        }
    }
}

/// The id filter stored under `key`: absent, an `i64`, or refused.
pub open spec fn named_id_filter_spec(m: Seq<(String, String)>, key: Seq<char>) -> Result<Option<i64>, Seq<char>> {
    match find_text_key(m, key) {
        None => Ok(None),
        Some(i) => match parse_i64_spec(m[i].1@) {
            Some(v) => Ok(Some(v)),
            None => Err(key + " filter must be an integer backend id"@),
        },
    }
}

proof fn lemma_find_text_key_extends(m: Seq<(String, String)>, n: int, k: Seq<char>)
    requires
        0 <= n <= m.len(),
        find_text_key(m.take(n), k) is Some,
    ensures
        find_text_key(m, k) == find_text_key(m.take(n), k),
    decreases m.len() - n,
{
    if n == m.len() {
        assert(m.take(n) =~= m);
    } else {
        let t = m.drop_last();
        assert(t.take(n) =~= m.take(n));
        lemma_find_text_key_extends(t, n, k);
    }
}

/// Reads the id filter stored under `key`.
pub fn parse_named_id_filter(raw: &Vec<(String, String)>, key: &str) -> (r: Result<Option<i64>, GrmError>)
    ensures
        match named_id_filter_spec(raw@, key@) {
            Ok(v) => r == Ok::<Option<i64>, GrmError>(v),
            Err(m) => r matches Err(e) && e@ == ErrorView::Constraint(m),
        },
{
    let mut i: usize = 0;
    while i < raw.len()
        invariant
            i <= raw.len(),
            find_text_key(raw@.take(i as int), key@) is None,
        decreases raw.len() - i,
    {
        proof {
            assert(raw@.take(i + 1).drop_last() =~= raw@.take(i as int));
            assert(raw@.take(i + 1).last() == raw@[i as int]);
        }
        if str_eq(raw[i].0.as_str(), key) {
            proof {
                lemma_find_text_key_extends(raw@, i + 1, key@);
            }
            let digits = chars_of(raw[i].1.as_str());
            return match parse_i64(&digits) {
                Some(v) => Ok(Some(v)),
                None => Err(GrmError::Constraint(concat(key, " filter must be an integer backend id"))),
            };
        }
        i = i + 1;
    }
    proof {
        assert(raw@.take(i as int) =~= raw@);
    }
    Ok(None)
}

/// The id filter a find request gives under the model's id-field name, and
/// the filters left once it is taken out.
pub open spec fn model_id_alias_spec(filters: Seq<(String, JsonValue)>, id_field: Seq<char>) -> Result<Option<i64>, Seq<char>> {
    if id_field == "id"@ {
        Ok(None)
    } else {
        match lookup(filters, id_field) {
            None => Ok(None),
            Some(v) => match raw_value_spec(v) {
                Err(m) => Err(m),
                Ok(t) => match parse_i64_spec(t) {
                    Some(i) => Ok(Some(i)),
                    None => Err(id_field + " filter must be an integer backend id"@),
                },
            },
        }
    }
}

/// Takes the filter named by the model's id field (unless that field is
/// `id` itself) out of `filters` and reads it as a backend id.
pub fn remove_model_id_alias(filters: &mut Vec<(String, JsonValue)>, id_field_name: &str) -> (r: Result<Option<i64>, GrmError>)
    ensures
        match model_id_alias_spec(old(filters)@, id_field_name@) {
            Ok(v) => r == Ok::<Option<i64>, GrmError>(v),
            Err(m) => r matches Err(e) && e@ == ErrorView::Constraint(m),
        },
        id_field_name@ == "id"@ || find_key(old(filters)@, id_field_name@) is None ==> final(filters)@ == old(
            filters,
        )@,
        id_field_name@ != "id"@ && find_key(old(filters)@, id_field_name@) is Some ==> final(filters)@ == old(
            filters,
        )@.remove(find_key(old(filters)@, id_field_name@)->0),
{
    if str_eq(id_field_name, "id") {
        return Ok(None);
    }
    let p = match find_key_exec(filters, id_field_name) {
        Some(p) => p,
        None => {
            return Ok(None);
        },
    };
    proof {
        lemma_find_key_bounds(old(filters)@, id_field_name@);
    }
    let (_key, value) = filters.remove(p);
    let raw = value_to_raw(value)?;
    let mut pairs: Vec<(String, String)> = Vec::new();
    pairs.push((String::from_str(id_field_name), raw));
    let ghost pv = pairs@;
    assert(find_text_key(pv, id_field_name@) == Some(0int)) by {
        assert(pv.drop_last() =~= Seq::<(String, String)>::empty());
        assert(pv.last().0@ == id_field_name@);
        assert(find_text_key(pv.drop_last(), id_field_name@) is None);
    }
    parse_named_id_filter(&pairs, id_field_name)
}

/// The text of a value type keyword, or `None` (`field_value_type`).
pub fn field_value_type(raw: &str) -> (r: Option<crate::schema::RuntimeValueType>)
    ensures
        r == crate::schema::value_type_keyword(raw@),
{
    crate::schema::RuntimeValueType::parse_keyword(raw)
}

/// The error for a node model missing from the session-local schema.
pub fn missing_node_schema(model: &str) -> (e: GrmError)
    ensures
        e@ == ErrorView::Constraint(
            "node model '"@ + model@
                + "' is not registered in the session-local runtime schema; call grm_schema_list and define schema first with grm_schema_define_node or grm_batch schema_define_node before creating or finding typed Neo4j data"@,
        ),
{
    GrmError::Constraint(
        concat(
            concat("node model '", model).as_str(),
            "' is not registered in the session-local runtime schema; call grm_schema_list and define schema first with grm_schema_define_node or grm_batch schema_define_node before creating or finding typed Neo4j data",
        ),
    )
}

/// The error for an edge model missing from the session-local schema.
pub fn missing_edge_schema(model: &str) -> (e: GrmError)
    ensures
        e@ == ErrorView::Constraint(
            "edge model '"@ + model@
                + "' is not registered in the session-local runtime schema; call grm_schema_list and define schema first with grm_schema_define_edge or grm_batch schema_define_edge before creating or finding typed Neo4j data"@,
        ),
{
    GrmError::Constraint(
        concat(
            concat("edge model '", model).as_str(),
            "' is not registered in the session-local runtime schema; call grm_schema_list and define schema first with grm_schema_define_edge or grm_batch schema_define_edge before creating or finding typed Neo4j data",
        ),
    )
}

/// A line with one `\r` before its removed `\n` taken off.
pub open spec fn strip_cr(p: Seq<char>) -> Seq<char> {
    if p.len() > 0 && p.last() == '\r' {
        p.drop_last()
    } else {
        p
    }
}

/// The lines of `s` (`str::lines`): pieces between `\n`s, a `\r` before a
/// `\n` removed, and no empty line after a final `\n`.
pub open spec fn text_lines(s: Seq<char>) -> Seq<Seq<char>> {
    let p = split_on(s, '\n');
    let body = Seq::new((p.len() - 1) as nat, |i: int| strip_cr(p[i]));
    if p.last().len() > 0 {
        body.push(p.last())
    } else {
        body
    }
}

/// `parts` joined with `\n` between them.
pub open spec fn join_lines(parts: Seq<Seq<char>>) -> Seq<char>
    decreases parts.len(),
{
    if parts.len() == 0 {
        Seq::empty()
    } else if parts.len() == 1 {
        parts[0]
    } else {
        join_lines(parts.drop_last()) + seq!['\n'] + parts.last()
    }
}

/// Whether `p` begins with `q`.
pub open spec fn starts_with(p: Seq<char>, q: Seq<char>) -> bool {
    q.len() <= p.len() && p.take(q.len() as int) == q
}

/// How many leading lines come before the first `## Output Design` heading.
pub open spec fn lines_before_output_design(ls: Seq<Seq<char>>) -> nat
    decreases ls.len(),
{
    if ls.len() == 0 {
        0
    } else {
        let k = lines_before_output_design(ls.drop_last());
        if k == ls.len() - 1 && !starts_with(ls.last(), "## Output Design"@) {
            ls.len()
        } else {
            k
        }
    }
}

/// The query-language guide up to its `## Output Design` section.
pub open spec fn compact_doc_spec(doc: Seq<char>) -> Seq<char> {
    let ls = text_lines(doc);
    join_lines(ls.take(lines_before_output_design(ls) as int))
}

fn starts_with_exec(p: &Vec<char>, q: &str) -> (r: bool)
    ensures
        r == starts_with(p@, q@),
{
    let qv = chars_of(q);
    if qv.len() > p.len() {
        return false;
    }
    let mut i: usize = 0;
    while i < qv.len()
        invariant
            qv@ == q@,
            qv.len() <= p.len(),
            i <= qv.len(),
            forall|j: int| 0 <= j < i ==> p@[j] == qv@[j],
        decreases qv.len() - i,
    {
        if p[i] != qv[i] {
            return false;
        }
        i = i + 1;
    }
    assert(p@.take(qv.len() as int) =~= qv@);
    true
}

proof fn lemma_lines_before_bound(ls: Seq<Seq<char>>)
    ensures
        lines_before_output_design(ls) <= ls.len(),
    decreases ls.len(),
{
    if ls.len() > 0 {
        lemma_lines_before_bound(ls.drop_last());
    }
}

/// Extending the lines after the heading was met changes nothing.
proof fn lemma_lines_before_stable(ls: Seq<Seq<char>>, n: int)
    requires
        0 <= n <= ls.len(),
        lines_before_output_design(ls.take(n)) < n,
    ensures
        lines_before_output_design(ls) == lines_before_output_design(ls.take(n)),
    decreases ls.len() - n,
{
    if n == ls.len() {
        assert(ls.take(n) =~= ls);
    } else {
        let t = ls.drop_last();
        assert(t.take(n) =~= ls.take(n));
        lemma_lines_before_stable(t, n);
        lemma_lines_before_bound(t);
    }
}

/// The query-language guide up to, not including, the first line that starts
/// with `## Output Design`.
pub fn compact_query_doc(doc: &str) -> (r: String)
    ensures
        r@ == compact_doc_spec(doc@),
{
    let v = chars_of(doc);
    let pieces = split_chars(&v, '\n');
    let ghost p = split_on(doc@, '\n');
    let ghost ls = text_lines(doc@);
    proof {
        crate::text::lemma_split_on_nonempty(doc@, '\n');
    }
    let n = pieces.len();
    let m = if pieces[n - 1].len() == 0 {
        n - 1
    } else {
        n
    };
    assert(ls.len() == m);
    let mut out = String::new();
    let mut i: usize = 0;
    assert(ls.take(0).len() == 0);
    while i < m
        invariant
            p == split_on(doc@, '\n'),
            ls == text_lines(doc@),
            n == pieces@.len(),
            n == p.len(),
            n >= 1,
            m == ls.len(),
            m <= n,
            m < n ==> p.last().len() == 0,
            forall|k: int| 0 <= k < n ==> (#[trigger] pieces@[k])@ == p[k],
            i <= m,
            lines_before_output_design(ls.take(i as int)) == i,
            out@ == join_lines(ls.take(i as int)),
        decreases m - i,
    {
        let piece = &pieces[i];
        let mut line: Vec<char> = Vec::new();
        let last_piece = i + 1 == n;
        let end = if !last_piece && piece.len() > 0 && piece[piece.len() - 1] == '\r' {
            piece.len() - 1
        } else {
            piece.len()
        };
        let mut k: usize = 0;
        while k < end
            invariant
                end <= piece.len(),
                k <= end,
                line@ == piece@.take(k as int),
            decreases end - k,
        {
            line.push(piece[k]);
            k = k + 1;
            assert(line@ =~= piece@.take(k as int));
        }
        proof {
            assert(piece@ == p[i as int]);
            if last_piece {
                assert(line@ =~= p.last());
            } else {
                assert(line@ =~= strip_cr(p[i as int]));
            }
            assert(line@ == ls[i as int]);
            assert(ls.take(i + 1).drop_last() =~= ls.take(i as int));
            assert(ls.take(i + 1).last() == ls[i as int]);
        }
        if starts_with_exec(&line, "## Output Design") {
            proof {
                lemma_lines_before_stable(ls, i + 1);
            }
            return out;
        }
        if i > 0 {
            push_char(&mut out, '\n');
        }
        let text = string_from_chars(&line);
        out.append(text.as_str());
        i = i + 1;
        proof {
            let t = ls.take(i as int);
            if i > 1 {
                assert(t.drop_last() =~= ls.take(i - 1));
            }
            assert(out@ =~= join_lines(t));
        }
    }
    proof {
        assert(ls.take(i as int) =~= ls);
    }
    out
}

/// The two introspection command families.
#[derive(Debug, Clone, Copy, PartialEq, Eq, Structural)]
pub enum IntrospectionKind {
    Explain,
    Profile,
}

pub open spec fn kind_word(k: IntrospectionKind) -> Seq<char> {
    match k {
        IntrospectionKind::Explain => "session.explain"@,
        IntrospectionKind::Profile => "session.profile"@,
    }
}

pub open spec fn opposite_word(k: IntrospectionKind) -> Seq<char> {
    match k {
        IntrospectionKind::Explain => "session.profile"@,
        IntrospectionKind::Profile => "session.explain"@,
    }
}

/// The full command to parse for an explain or profile tool call, or the
/// refusal of a command of the other family. The text may repeat the
/// family's own prefix.
pub open spec fn introspection_command_spec(k: IntrospectionKind, command: Seq<char>) -> Result<Seq<char>, Seq<char>> {
    let c = trim(command);
    let opp = opposite_word(k);
    let own = kind_word(k) + " "@;
    if c == opp || starts_with(c, opp + " "@) {
        Err("expected "@ + kind_word(k) + " command, got "@ + opp)
    } else {
        let rest = if starts_with(c, own) {
            c.skip(own.len() as int)
        } else {
            c
        };
        Ok(own + rest)
    }
}

/// Normalises the command of `grm_explain` or `grm_profile` before it is
/// parsed.
pub fn introspection_command(kind: IntrospectionKind, command: &str) -> (r: Result<String, String>)
    ensures
        match introspection_command_spec(kind, command@) {
            Ok(t) => r matches Ok(x) && x@ == t,
            Err(m) => r matches Err(e) && e@ == m,
        },
{
    let c = trim_str(command);
    let cv = chars_of(c.as_str());
    let (word, opposite) = match kind {
        IntrospectionKind::Explain => ("session.explain", "session.profile"),
        IntrospectionKind::Profile => ("session.profile", "session.explain"),
    };
    let opposite_space = concat(opposite, " ");
    if str_eq(c.as_str(), opposite) || starts_with_exec(&cv, opposite_space.as_str()) {
        return Err(concat(concat(concat("expected ", word).as_str(), " command, got ").as_str(), opposite));
    }
    let own = concat(word, " ");
    let ov = chars_of(own.as_str());
    let rest = if starts_with_exec(&cv, own.as_str()) {
        crate::text::string_from_range(&cv, ov.len(), cv.len())
    } else {
        c
    };
    assert(cv@.subrange(ov.len() as int, cv.len() as int) =~= cv@.skip(ov.len() as int));
    Ok(concat(own.as_str(), rest.as_str()))
}

} // verus!
