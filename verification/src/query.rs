//! The typed parts of find requests: predicates, traversal steps and order.

use vstd::prelude::*;

verus! {

/// Comparison of a property with a value.
#[derive(Debug, Clone, Copy, PartialEq, Eq, Structural)]
pub enum PredicateOp {
    Eq,
    Ne,
    Gt,
    Ge,
    Lt,
    Le,
    Contains,
}

/// Direction of a traversal step.
#[derive(Debug, Clone, Copy, PartialEq, Eq, Structural)]
pub enum TraversalDirection {
    Out,
    In,
    Both,
}

/// What a traversing node find returns.
#[derive(Debug, Clone, Copy, PartialEq, Eq, Structural)]
pub enum TraversalReturn {
    End,
    Root,
    Edge,
}

/// Sort direction.
#[derive(Debug, Clone, Copy, PartialEq, Eq, Structural)]
pub enum OrderDirection {
    Asc,
    Desc,
}

/// One sort key.
#[derive(Debug, Clone)]
pub struct OrderSpec {
    pub field: String,
    pub direction: OrderDirection,
}

/// A `key=value` term of a command.
#[derive(Debug, Clone)]
pub struct QueryTerm {
    pub key: String,
    pub value: String,
}

/// Kind of a backend id.
#[derive(Debug, Clone, Copy, PartialEq, Eq, Structural)]
pub enum BackendIdType {
    Int64,
    Uuid,
}

/// The keyword of a backend id type.
pub fn backend_id_type_name(id_type: BackendIdType) -> (r: &'static str)
    ensures
        r@ == match id_type {
            BackendIdType::Int64 => "int"@,
            BackendIdType::Uuid => "uuid"@,
        },
{
    match id_type {
        BackendIdType::Int64 => "int",
        BackendIdType::Uuid => "uuid",
    }
}

} // verus!
