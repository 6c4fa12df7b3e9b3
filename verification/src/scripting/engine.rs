//! The calls into the Lua engine.
use vstd::prelude::*;

verus! {

/// The Lua engine of the `rlua` crate, `rlua::Lua`. Nothing of its state is known.
#[verifier::external_type_specification]
#[verifier::external_body]
pub struct ExLua(rlua::Lua);

/// The error type of the `rlua` crate, `rlua::Error`, under its name in the prelude.
#[verifier::external_type_specification]
#[verifier::external_body]
pub struct ExLuaError(rlua::prelude::LuaError);

/// Calls `rlua::Lua::new`, which creates a Lua state with the safe subset of the standard
/// libraries loaded. Nothing is claimed of the state.
#[verifier::external_body]
pub(crate) fn lua_new() -> (lua: rlua::Lua) {
    rlua::Lua::new()
}

/// Calls `rlua::Lua::load` and `rlua::Chunk::eval` for a `bool`. What comes back depends on
/// the state of the engine, so nothing is claimed of it.
#[verifier::external_body]
pub(crate) fn lua_eval_bool(lua: &rlua::Lua, source: &str) -> (r: Result<bool, rlua::prelude::LuaError>) {
    lua.load(source).eval::<bool>()
}

/// Calls `rlua::Lua::load` and `rlua::Chunk::eval` for an `i32`. What comes back depends on
/// the state of the engine, so nothing is claimed of it.
#[verifier::external_body]
pub(crate) fn lua_eval_i32(lua: &rlua::Lua, source: &str) -> (r: Result<i32, rlua::prelude::LuaError>) {
    lua.load(source).eval::<i32>()
}

/// Calls `rlua::Lua::load` and `rlua::Chunk::call` for an `i64`: runs the script with the
/// one argument that is given. What comes back depends on the state of the engine, so
/// nothing is claimed of it.
#[verifier::external_body]
pub(crate) fn lua_call_i64(lua: &rlua::Lua, script: &str, argument: &str) -> (r: Result<
    i64,
    rlua::prelude::LuaError,
>) {
    lua.load(script).call::<_, i64>(argument)
}

/// Calls `rlua::Lua::load` and `rlua::Chunk::eval` for a `String`. What comes back depends
/// on the state of the engine, so nothing is claimed of it.
#[verifier::external_body]
pub(crate) fn lua_eval_string(lua: &rlua::Lua, source: &str) -> (r: Result<String, rlua::prelude::LuaError>) {
    lua.load(source).eval::<String>()
}

/// Calls `to_string` on an `rlua::prelude::LuaError`, the error type of `rlua`, which gives
/// the diagnostic of the engine. Nothing is
/// claimed of the text.
#[verifier::external_body]
pub(crate) fn lua_error_text(error: &rlua::prelude::LuaError) -> (text: String) {
    error.to_string()
}

/// Calls `rlua::Lua::create_table`, `rlua::Lua::globals` and `rlua::Table::set`: creates an
/// empty table in the engine and makes it the global variable `name` of the same engine.
/// Whether the engine accepts that is its own matter, so nothing is claimed of the result.
#[verifier::external_body]
pub(crate) fn lua_set_global_table(lua: &rlua::Lua, name: &str) -> (r: Result<
    (),
    rlua::prelude::LuaError,
>) {
    lua.globals().set(name, lua.create_table()?)
}

/// Calls `rlua::Lua::globals`, `rlua::Table::get` and `rlua::Table::set`: sets the field
/// `key` of the table that is the global variable `name` of the engine to a `bool`. It
/// fails where that global is no table. Nothing else is claimed of the result.
#[verifier::external_body]
pub(crate) fn lua_set_field_bool(lua: &rlua::Lua, name: &str, key: &str, value: bool) -> (r: Result<
    (),
    rlua::prelude::LuaError,
>) {
    lua.globals().get::<_, rlua::Table>(name)?.set(key, value)
}

/// Calls `rlua::Lua::globals`, `rlua::Table::get` and `rlua::Table::set`: sets the field
/// `key` of the table that is the global variable `name` of the engine to a string. It
/// fails where that global is no table. Nothing else is claimed of the result.
#[verifier::external_body]
pub(crate) fn lua_set_field_str(lua: &rlua::Lua, name: &str, key: &str, value: &str) -> (r: Result<
    (),
    rlua::prelude::LuaError,
>) {
    lua.globals().get::<_, rlua::Table>(name)?.set(key, value)
}

} // verus!
