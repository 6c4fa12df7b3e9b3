//! The embedded scripting engine that evaluates script values and conditionals.
use vstd::prelude::*;
use crate::error::Error;
use crate::geometry::Scalar;
use crate::scripting::engine::{
    lua_call_i64, lua_error_text, lua_eval_bool, lua_eval_i32, lua_eval_string, lua_new,
    lua_set_field_bool, lua_set_field_str, lua_set_global_table,
};
use crate::scripting::value::{ScriptTable, ScriptValue};

verus! {

/// The error that reports a failure of the scripting engine.
fn script_error(error: rlua::prelude::LuaError) -> (e: Error)
    ensures
        e@ is Script,
{
    Error::script(lua_error_text(&error))
}

/// The script that evaluates the source that it is given as its argument, as an
/// expression or else as statements that return a value, and gives the value in
/// thousandths, rounded to the nearest whole number with ties away from zero.
pub open spec fn scaling_script() -> Seq<char> {
    "local source = ... local f = load('return ' .. source) or load(source) local v = f() * 1000 if v < 0 then return -math.floor(0.5 - v) end return math.floor(v + 0.5)"@
}

/// Keeps track of the scripting engine and data in it.
pub struct ScriptRuntime {
    lua: rlua::Lua,
}

impl ScriptRuntime {
    /// Creates a new runtime.
    pub fn new() -> Self {
        ScriptRuntime { lua: lua_new() }
    }

    /// Makes the fields of `model` available to scripts as the fields of the global `model`:
    /// the global becomes a new table, which then gets the fields one by one.
    ///
    /// Fails with a script error when the engine refuses a step. The global then holds the
    /// fields that were set before.
    pub fn set_model(&self, model: &ScriptTable) -> (r: Result<(), Error>)
        ensures
            r matches Err(e) ==> e@ is Script,
    {
        match lua_set_global_table(&self.lua, "model") {
            Ok(()) => {},
            Err(e) => {
                return Err(script_error(e));
            },
        }
        let mut i: usize = 0;
        while i < model.len()
            invariant
                i <= model.fields().len(),
            decreases model.fields().len() - i,
        {
            let (key, value) = model.field(i);
            let set = match value {
                ScriptValue::Bool(value) => lua_set_field_bool(
                    &self.lua,
                    "model",
                    key.as_str(),
                    *value,
                ),
                ScriptValue::String(value) => lua_set_field_str(
                    &self.lua,
                    "model",
                    key.as_str(),
                    value.as_str(),
                ),
            };
            match set {
                Ok(()) => {},
                Err(e) => {
                    return Err(script_error(e));
                },
            }
            i += 1;
        }
        Ok(())
    }

    /// Evaluates `source` as a truth value. The outcome is the engine's; a failure is a
    /// script error.
    pub fn eval_bool(&self, source: &str) -> (r: Result<bool, Error>)
        ensures
            r matches Err(e) ==> e@ is Script,
    {
        match lua_eval_bool(&self.lua, source) {
            Ok(value) => Ok(value),
            Err(e) => Err(script_error(e)),
        }
    }

    /// Evaluates `source` as an integer. The outcome is the engine's; a failure is a script
    /// error.
    pub fn eval_integer(&self, source: &str) -> (r: Result<i32, Error>)
        ensures
            r matches Err(e) ==> e@ is Script,
    {
        match lua_eval_i32(&self.lua, source) {
            Ok(value) => Ok(value),
            Err(e) => Err(script_error(e)),
        }
    }

    /// The script that is run to evaluate a source as a length.
    pub fn scaling() -> (script: &'static str)
        ensures
            script@ == scaling_script(),
    {
        "local source = ... local f = load('return ' .. source) or load(source) local v = f() * 1000 if v < 0 then return -math.floor(0.5 - v) end return math.floor(v + 0.5)"
    }

    /// Evaluates `source` as a number and gives it in thousandths. The outcome is the
    /// engine's; a failure is a script error.
    pub fn eval_float(&self, source: &str) -> (r: Result<Scalar, Error>)
        ensures
            r matches Err(e) ==> e@ is Script,
    {
        match lua_call_i64(&self.lua, Self::scaling(), source) {
            Ok(value) => Ok(value),
            Err(e) => Err(script_error(e)),
        }
    }

    /// Evaluates `source` as a string. The outcome is the engine's; a failure is a script
    /// error.
    pub fn eval_string(&self, source: &str) -> (r: Result<String, Error>)
        ensures
            r matches Err(e) ==> e@ is Script,
    {
        match lua_eval_string(&self.lua, source) {
            Ok(value) => Ok(value),
            Err(e) => Err(script_error(e)),
        }
    }
}

} // verus!
