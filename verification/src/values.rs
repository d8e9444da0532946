//! The plain values a configuration field can hold, and the mathematical
//! model of a Lua global variable.

use vstd::prelude::*;

verus! {

/// A field value that the library can hand to the Lua runtime and read back.
#[derive(Clone, Debug, PartialEq, Eq)]
pub enum Value {
    Int(i64),
    Bool(bool),
    Text(String),
}

/// A named field of the configuration structure.
#[derive(Clone, Debug)]
pub struct Field {
    pub name: String,
    pub value: Value,
}

/// The abstraction of one Lua global: integers, booleans and UTF-8 strings
/// are modelled exactly; every other Lua value (floats, tables, functions,
/// userdata, non-UTF-8 strings) is `Other`. `nil` is modelled as absence.
pub ghost enum GlobalVal {
    Int(i64),
    Bool(bool),
    Str(Seq<char>),
    Other,
}

/// What a field value looks like as a Lua global.
pub open spec fn gval_of(v: Value) -> GlobalVal {
    match v {
        Value::Int(i) => GlobalVal::Int(i),
        Value::Bool(b) => GlobalVal::Bool(b),
        Value::Text(s) => GlobalVal::Str(s@),
    }
}

} // verus!
