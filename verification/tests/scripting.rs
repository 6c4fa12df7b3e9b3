use markedly::scripting::{ScriptRuntime, ScriptTable, ScriptValue};
use markedly::Error;

#[test]
fn the_runtime_evaluates_expressions() {
    let runtime = ScriptRuntime::new();
    assert_eq!(runtime.eval_bool("1 < 2").unwrap(), true);
    assert_eq!(runtime.eval_bool("1 > 2").unwrap(), false);
    assert_eq!(runtime.eval_integer("6 * 7").unwrap(), 42);
    assert_eq!(runtime.eval_float("2.5").unwrap(), 2500);
    assert_eq!(runtime.eval_float("1 / 3").unwrap(), 333);
    assert_eq!(runtime.eval_float("-2.5").unwrap(), -2500);
    assert_eq!(runtime.eval_string("'he' .. 'llo'").unwrap(), "hello");
    assert!(matches!(runtime.eval_integer("this is not lua"), Err(Error::Script { .. })));
}

#[test]
fn the_runtime_scales_lengths_in_the_engine() {
    let runtime = ScriptRuntime::new();
    assert!(ScriptRuntime::scaling().contains("* 1000"));
    // An expression, statements that return a value, and ties away from zero
    assert_eq!(runtime.eval_float("1.5 + 1").unwrap(), 2500);
    assert_eq!(runtime.eval_float("local x = 2 return x / 8").unwrap(), 250);
    assert_eq!(runtime.eval_float("0.0005").unwrap(), 1);
    assert_eq!(runtime.eval_float("-0.0005").unwrap(), -1);
    assert_eq!(runtime.eval_float("7 -- seven").unwrap(), 7000);
    assert!(matches!(runtime.eval_float("'text'"), Err(Error::Script { .. })));
    assert!(matches!(runtime.eval_float("not lua ("), Err(Error::Script { .. })));
}

#[test]
fn the_model_is_seen_by_scripts() {
    let runtime = ScriptRuntime::new();
    let mut model = ScriptTable::new();
    model.set("visible", ScriptValue::Bool(true));
    model.set("name", ScriptValue::String("Alice".into()));
    model.set("name", "Bob".to_string().into());
    assert_eq!(model.len(), 2);
    assert_eq!(model.get("name"), Some(&ScriptValue::String("Bob".into())));
    assert_eq!(model.get("other"), None);
    runtime.set_model(&model).unwrap();
    assert_eq!(runtime.eval_bool("model.visible").unwrap(), true);
    assert_eq!(runtime.eval_string("model.name").unwrap(), "Bob");
    let other = ScriptTable::new();
    runtime.set_model(&other).unwrap();
    assert_eq!(runtime.eval_bool("model.visible").unwrap(), false);
    let value: ScriptValue = true.into();
    assert_eq!(value, ScriptValue::Bool(true));
}
