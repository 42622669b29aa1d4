//! The two value domains of the relational bridge: the dynamically-typed
//! wire shape crossing the frontend boundary, and the closed five-variant
//! value model of the embedded relational store.

use vstd::prelude::*;

verus! {

/// A number of the dynamic wire shape. The host boundary distinguishes
/// values that fit a signed 64-bit integer, values that fit only an
/// unsigned 64-bit integer, and floating-point values; a floating-point
/// value is carried by its IEEE 754 binary64 bit pattern, which this core
/// never interprets arithmetically.
#[derive(Clone, Copy, Debug, PartialEq, Eq, Structural)]
pub enum Num {
    Signed(i64),
    Unsigned(u64),
    Real(u64),
}

/// A well-formed number never uses `Unsigned` for a value that fits the
/// signed range: the boundary classifies such values as `Signed`.
pub open spec fn wf_num(n: Num) -> bool {
    n matches Num::Unsigned(u) ==> u > i64::MAX
}

/// The dynamic request/response wire shape: a tagged union of null,
/// booleans, numbers, text, ordered arrays, and string-keyed objects.
#[derive(Debug, PartialEq)]
pub enum DynValue {
    Null,
    Bool(bool),
    Number(Num),
    Text(String),
    Array(Vec<DynValue>),
    Object(Vec<(String, DynValue)>),
}

/// The closed value model of the embedded relational store. A `Real` is
/// carried by its IEEE 754 binary64 bit pattern.
#[derive(Debug, PartialEq)]
pub enum SqlVal {
    Null,
    Integer(i64),
    Real(u64),
    Text(String),
    Blob(Vec<u8>),
}

} // verus!
