use vstd::prelude::*;

use crate::text::{lex_lt, str_compare, ValueOrdering};

verus! {

/// A metadata value: a tagged union of boolean, signed 64-bit integer,
/// 64-bit float and UTF-8 string. Equality and ordering are defined within
/// each variant; values of distinct variants never compare.
///
/// The float variant carries the value as an order-preserving 64-bit key
/// (the IEEE 754 bits with the sign bit flipped for non-negative values and
/// all bits flipped for negative ones), so that unsigned order of the keys
/// is the numeric order of the floats. Callers encode at the boundary.
#[derive(PartialEq, Debug)]
pub enum MetadataValue {
    Bool(bool),
    Int(i64),
    Float(u64),
    Str(String),
}

/// The mathematical counterpart of `MetadataValue`.
pub enum MetaVal {
    Bool(bool),
    Int(int),
    Float(u64),
    Str(Seq<char>),
}

impl View for MetadataValue {
    type V = MetaVal;

    open spec fn view(&self) -> MetaVal {
        match self {
            MetadataValue::Bool(b) => MetaVal::Bool(*b),
            MetadataValue::Int(i) => MetaVal::Int(*i as int),
            MetadataValue::Float(f) => MetaVal::Float(*f),
            MetadataValue::Str(s) => MetaVal::Str(s@),
        }
    }
}

/// Whether two values carry the same variant tag.
pub open spec fn same_variant(a: MetaVal, b: MetaVal) -> bool {
    match (a, b) {
        (MetaVal::Bool(_), MetaVal::Bool(_)) => true,
        (MetaVal::Int(_), MetaVal::Int(_)) => true,
        (MetaVal::Float(_), MetaVal::Float(_)) => true,
        (MetaVal::Str(_), MetaVal::Str(_)) => true,
        _ => false,
    }
}

/// Strict order within a variant; values of distinct variants are unordered.
pub open spec fn val_lt(a: MetaVal, b: MetaVal) -> bool {
    match (a, b) {
        (MetaVal::Bool(x), MetaVal::Bool(y)) => !x && y,
        (MetaVal::Int(x), MetaVal::Int(y)) => x < y,
        (MetaVal::Float(x), MetaVal::Float(y)) => x < y,
        (MetaVal::Str(x), MetaVal::Str(y)) => lex_lt(x, y),
        _ => false,
    }
}

/// The comparison operators of a primitive metadata predicate. `NotEqual`
/// is desugared at the evaluator and never reaches a provider.
#[derive(Clone, Copy, PartialEq, Eq, Structural, Debug)]
pub enum PrimitiveOperator {
    Equal,
    NotEqual,
    GreaterThan,
    GreaterThanOrEqual,
    LessThan,
    LessThanOrEqual,
}

/// Whether a stored value satisfies `op` relative to the queried value.
/// Values of distinct variants never match, and `NotEqual` never matches
/// here because the evaluator rewrites it before any lookup.
pub open spec fn prim_sat(stored: MetaVal, op: PrimitiveOperator, query: MetaVal) -> bool {
    same_variant(stored, query) && match op {
        PrimitiveOperator::Equal => stored == query,
        PrimitiveOperator::NotEqual => false,
        PrimitiveOperator::GreaterThan => val_lt(query, stored),
        PrimitiveOperator::GreaterThanOrEqual => val_lt(query, stored) || stored == query,
        PrimitiveOperator::LessThan => val_lt(stored, query),
        PrimitiveOperator::LessThanOrEqual => val_lt(stored, query) || stored == query,
    }
}

/// Three-way comparison of two values, or `None` when the variants differ.
pub fn value_compare(a: &MetadataValue, b: &MetadataValue) -> (r: Option<ValueOrdering>)
    ensures
        (r is Some) == same_variant(a@, b@),
        r is Some ==> {
            let o = r->0;
            &&& (o is Less) == val_lt(a@, b@)
            &&& (o is Greater) == val_lt(b@, a@)
            &&& (o is Equal) == (a@ == b@)
        },
{
    match (a, b) {
        (MetadataValue::Bool(x), MetadataValue::Bool(y)) => Some(
            if *x == *y {
                ValueOrdering::Equal
            } else if *y {
                ValueOrdering::Less
            } else {
                ValueOrdering::Greater
            },
        ),
        (MetadataValue::Int(x), MetadataValue::Int(y)) => Some(
            if *x < *y {
                ValueOrdering::Less
            } else if *x == *y {
                ValueOrdering::Equal
            } else {
                ValueOrdering::Greater
            },
        ),
        (MetadataValue::Float(x), MetadataValue::Float(y)) => Some(
            if *x < *y {
                ValueOrdering::Less
            } else if *x == *y {
                ValueOrdering::Equal
            } else {
                ValueOrdering::Greater
            },
        ),
        (MetadataValue::Str(x), MetadataValue::Str(y)) => Some(str_compare(x.as_str(), y.as_str())),
        _ => None,
    }
}

/// Whether the stored value satisfies `op` relative to the queried value.
pub fn value_matches(stored: &MetadataValue, op: PrimitiveOperator, query: &MetadataValue) -> (r:
    bool)
    requires
        !(op is NotEqual),
    ensures
        r == prim_sat(stored@, op, query@),
{
    match value_compare(stored, query) {
        None => false,
        Some(o) => match op {
            PrimitiveOperator::Equal => matches!(o, ValueOrdering::Equal),
            PrimitiveOperator::NotEqual => false,
            PrimitiveOperator::GreaterThan => matches!(o, ValueOrdering::Greater),
            PrimitiveOperator::GreaterThanOrEqual => !matches!(o, ValueOrdering::Less),
            PrimitiveOperator::LessThan => matches!(o, ValueOrdering::Less),
            PrimitiveOperator::LessThanOrEqual => !matches!(o, ValueOrdering::Greater),
        },
    }
}

} // verus!
