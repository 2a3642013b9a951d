//! Stored graph records as the service returns them.

use vstd::prelude::*;
use crate::value::JsonValue;
use crate::text::chars_eq;
use crate::text::chars_of;

verus! {

/// A stored node: its id, labels (the first is its model) and properties in
/// key order.
#[derive(Debug, Clone)]
pub struct StoredNode {
    pub id: i64,
    pub labels: Vec<String>,
    pub props: Vec<(String, JsonValue)>,
}

/// A stored edge: its id, type, endpoints and properties in key order.
#[derive(Debug, Clone)]
pub struct StoredRel {
    pub id: i64,
    pub rel_type: String,
    pub from: i64,
    pub to: i64,
    pub props: Vec<(String, JsonValue)>,
}

/// Position of the first entry with key `k`, if any.
pub open spec fn find_key(m: Seq<(String, JsonValue)>, k: Seq<char>) -> Option<int>
    decreases m.len(),
{
    if m.len() == 0 {
        None
    } else {
        match find_key(m.drop_last(), k) {
            Some(i) => Some(i),
            None => if m.last().0@ == k {
                Some(m.len() - 1)
            } else {
                None
            },
        }
    }
}

/// The value stored under `k`, if any.
pub open spec fn lookup(m: Seq<(String, JsonValue)>, k: Seq<char>) -> Option<JsonValue> {
    match find_key(m, k) {
        Some(i) => Some(m[i].1),
        None => None,
    }
}

pub proof fn lemma_find_key_bounds(m: Seq<(String, JsonValue)>, k: Seq<char>)
    ensures
        find_key(m, k) is Some ==> 0 <= find_key(m, k)->0 < m.len() && m[find_key(m, k)->0].0@ == k,
    decreases m.len(),
{
    if m.len() > 0 {
        lemma_find_key_bounds(m.drop_last(), k);
    }
}

/// Position of the first entry with key `k`.
pub fn find_key_exec(m: &Vec<(String, JsonValue)>, k: &str) -> (r: Option<usize>)
    ensures
        r is Some <==> find_key(m@, k@) is Some,
        r matches Some(p) ==> find_key(m@, k@) == Some(p as int),
{
    let key = chars_of(k);
    let mut i: usize = 0;
    while i < m.len()
        invariant
            key@ == k@,
            i <= m.len(),
            find_key(m@.take(i as int), k@) is None,
        decreases m.len() - i,
    {
        let kk = chars_of(m[i].0.as_str());
        proof {
            assert(m@.take(i + 1).drop_last() =~= m@.take(i as int));
            assert(m@.take(i + 1).last() == m@[i as int]);
        }
        if chars_eq(&kk, &key) {
            proof {
                assert(find_key(m@.take(i + 1), k@) == Some(i as int));
                lemma_find_key_extends(m@, i + 1, k@);
            }
            return Some(i);
        }
        i = i + 1;
    }
    proof {
        assert(m@.take(i as int) =~= m@);
    }
    None
}

/// A later prefix keeps the answer of an earlier one once a key is found.
pub proof fn lemma_find_key_extends(m: Seq<(String, JsonValue)>, n: int, k: Seq<char>)
    requires
        0 <= n <= m.len(),
        find_key(m.take(n), k) is Some,
    ensures
        find_key(m, k) == find_key(m.take(n), k),
    decreases m.len() - n,
{
    if n == m.len() {
        assert(m.take(n) =~= m);
    } else {
        let t = m.drop_last();
        assert(t.take(n) =~= m.take(n));
        lemma_find_key_extends(t, n, k);
    }
}

} // verus!
