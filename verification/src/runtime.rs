//! The bridge to the embedded Lua interpreter (the `mlua` crate).
//!
//! The interpreter's state is opaque; the contracts here speak of it through
//! three names: `lua_globals`, the global variables it holds (abstracted as
//! [`GlobalVal`]); `lua_chunks`, the chunks of source text submitted to it
//! so far, in order; and `lua_submission_globals`, the globals each of those
//! chunks started from. Everything the rest of the library proves about
//! injection, execution order and read-back rests on these contracts.

use crate::values::{gval_of, GlobalVal, Value};
use vstd::prelude::*;

verus! {

#[verifier::external_type_specification]
#[verifier::external_body]
pub struct ExLua(mlua::Lua);

/// The global variables of a Lua state: each name maps to the abstraction of
/// its current value; a name absent from the map holds `nil`.
pub uninterp spec fn lua_globals(lua: mlua::Lua) -> Map<Seq<char>, GlobalVal>;

/// The chunks of source text submitted to a Lua state so far, oldest first.
/// A chunk is recorded whether or not it ran to completion.
pub uninterp spec fn lua_chunks(lua: mlua::Lua) -> Seq<Seq<char>>;

/// The globals that stood when each chunk was submitted, parallel to
/// `lua_chunks`: entry `k` is the globals map the `k`-th chunk started from.
pub uninterp spec fn lua_submission_globals(lua: mlua::Lua) -> Seq<Map<Seq<char>, GlobalVal>>;

/// What reading one global produced: a representable value, `nil`, a value
/// outside the library's value model, or an error from the runtime.
pub(crate) enum ReadBack {
    Val(Value),
    Absent,
    Unsupported,
    Failure(String),
}

/// Relies on mlua::Lua::new: a fresh state, with the safe standard libraries
/// loaded, on which no chunk has yet been submitted.
#[verifier::external_body]
pub(crate) fn new_lua() -> (lua: mlua::Lua)
    ensures
        lua_chunks(lua) == Seq::<Seq<char>>::empty(),
        lua_submission_globals(lua).len() == 0,
{
    mlua::Lua::new()
}

/// Relies on mlua::Table::raw_set on the globals table: on success the named
/// global holds the given value; setting a global never submits a chunk.
/// Raw access is used so that what is written is exactly what the table
/// stores, whatever metatables a script may later attach.
#[verifier::external_body]
pub(crate) fn set_global(lua: &mut mlua::Lua, name: &str, value: &Value) -> (r: Result<
    (),
    String,
>)
    ensures
        lua_chunks(*final(lua)) == lua_chunks(*old(lua)),
        lua_submission_globals(*final(lua)) == lua_submission_globals(*old(lua)),
        r is Ok ==> lua_globals(*final(lua)) == lua_globals(*old(lua)).insert(name@, gval_of(*value)),
{
    let globals = lua.globals();
    let res = match value {
        Value::Int(i) => globals.raw_set(name, *i),
        Value::Bool(b) => globals.raw_set(name, *b),
        Value::Text(s) => globals.raw_set(name, s.as_str()),
    };
    match res {
        Ok(()) => Ok(()),
        Err(e) => Err(e.to_string()),
    }
}

/// Relies on mlua::Table::raw_get on the globals table: a value it returns
/// is the named global's stored value; `nil` reads back as absent. Raw
/// access is used so that the same state always reads back the same way,
/// whatever metatables a script may have attached.
#[verifier::external_body]
pub(crate) fn read_global(lua: &mlua::Lua, name: &str) -> (r: ReadBack)
    ensures
        r matches ReadBack::Val(v) ==> lua_globals(*lua).contains_key(name@) && lua_globals(*lua)[
            name@
        ] == gval_of(v),
        r is Absent ==> !lua_globals(*lua).contains_key(name@),
        r is Unsupported ==> lua_globals(*lua).contains_key(name@) && lua_globals(*lua)[name@]
            is Other,
{
    match lua.globals().raw_get::<mlua::Value>(name) {
        Ok(mlua::Value::Integer(i)) => ReadBack::Val(Value::Int(i)),
        Ok(mlua::Value::Boolean(b)) => ReadBack::Val(Value::Bool(b)),
        Ok(mlua::Value::String(s)) => match s.to_str() {
            Ok(t) => ReadBack::Val(Value::Text(t.as_ref().to_owned())),
            Err(_) => ReadBack::Unsupported,
        },
        Ok(mlua::Value::Nil) => ReadBack::Absent,
        Ok(_) => ReadBack::Unsupported,
        Err(e) => ReadBack::Failure(e.to_string()),
    }
}

/// Relies on mlua::Lua::load and mlua::Chunk::exec: the chunk is submitted
/// to the state and run, starting from the globals the state holds at the
/// call; afterwards the globals may hold anything.
#[verifier::external_body]
pub(crate) fn exec_chunk(lua: &mut mlua::Lua, code: &str) -> (r: Result<(), String>)
    ensures
        lua_chunks(*final(lua)) == lua_chunks(*old(lua)).push(code@),
        lua_submission_globals(*final(lua)) == lua_submission_globals(*old(lua)).push(
            lua_globals(*old(lua)),
        ),
{
    match lua.load(code).exec() {
        Ok(()) => Ok(()),
        Err(e) => Err(e.to_string()),
    }
}

} // verus!
