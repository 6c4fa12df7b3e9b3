//! Scripting runtime types and helpers for interacting with it.
mod engine;
pub mod runtime;
pub mod value;

pub use self::runtime::ScriptRuntime;
pub use self::value::{ScriptTable, ScriptValue};
