use markedly::geometry::{Point2, Vector2};
use markedly::scripting::ScriptRuntime;
use markedly::template::value::{range_f, range_i};
use markedly::template::{Color, Coordinate, Coordinates, EventHook, TemplateValue};
use markedly::Error;

fn message(error: &Error) -> String {
    match error {
        Error::Other { error } => error.clone(),
        Error::Value { error, .. } => error.clone(),
        Error::Script { error } => error.clone(),
        Error::Generic { error } => error.clone(),
        Error::Attribute { field, .. } => field.clone(),
    }
}

#[test]
fn values_read_as_what_they_are() {
    let runtime = ScriptRuntime::new();
    assert_eq!(TemplateValue::String("text".into()).as_string(&runtime).unwrap(), "text");
    assert_eq!(TemplateValue::Integer(-4).as_integer(&runtime).unwrap(), -4);
    assert_eq!(TemplateValue::Float(2500).as_float(&runtime).unwrap(), 2500);
    let tuple = TemplateValue::Tuple(vec![TemplateValue::Integer(1)]);
    assert_eq!(tuple.as_vec().unwrap().len(), 1);
}

#[test]
fn values_refuse_other_readings() {
    let runtime = ScriptRuntime::new();
    let error = TemplateValue::Integer(1).as_string(&runtime).unwrap_err();
    assert_eq!(message(&error), "Value is not a string");
    let error = TemplateValue::Float(1).as_integer(&runtime).unwrap_err();
    assert_eq!(message(&error), "Value is not an integer");
    let error = TemplateValue::Integer(1).as_float(&runtime).unwrap_err();
    assert_eq!(message(&error), "Value is not a float");
    let error = TemplateValue::Default.as_vec().unwrap_err();
    assert_eq!(message(&error), "Value is not a tuple");
    let error = TemplateValue::Integer(1).as_coordinate(&runtime).unwrap_err();
    assert_eq!(message(&error), "Value is not a float or percentage");
    let error = TemplateValue::Integer(1).as_event_hook(&runtime).unwrap_err();
    assert_eq!(message(&error), "Value is not a string or script statement");
}

#[test]
fn script_values_are_evaluated() {
    let runtime = ScriptRuntime::new();
    assert_eq!(TemplateValue::ScriptValue("'a' .. 'b'".into()).as_string(&runtime).unwrap(), "ab");
    assert_eq!(TemplateValue::ScriptValue("2 + 3".into()).as_integer(&runtime).unwrap(), 5);
    assert_eq!(TemplateValue::ScriptValue("1 / 4".into()).as_float(&runtime).unwrap(), 250);
    assert_eq!(TemplateValue::ScriptValue("-0.0015".into()).as_float(&runtime).unwrap(), -2);
    assert_eq!(
        TemplateValue::ScriptValue("10.5".into()).as_coordinate(&runtime).unwrap(),
        Coordinate::Exact(10500)
    );
    let error = TemplateValue::ScriptValue("not lua at all".into()).as_integer(&runtime);
    assert!(matches!(error, Err(Error::Script { .. })));
    assert_eq!(
        TemplateValue::ScriptValue("'pressed'".into()).as_event_hook(&runtime).unwrap(),
        EventHook::Direct("pressed".into())
    );
}

#[test]
fn coordinates_are_read_from_tuples() {
    let runtime = ScriptRuntime::new();
    let value = TemplateValue::Tuple(vec![TemplateValue::Float(1500), TemplateValue::Percentage(50)]);
    assert_eq!(
        value.as_coordinates(&runtime).unwrap(),
        Coordinates::new(Coordinate::Exact(1500), Coordinate::RelativeToParent(50))
    );
    let value = TemplateValue::Tuple(vec![TemplateValue::Float(1500)]);
    assert_eq!(message(&value.as_coordinates(&runtime).unwrap_err()), "Tuple is incorrect size");
    let value = TemplateValue::Tuple(vec![TemplateValue::Float(1), TemplateValue::Integer(2)]);
    match value.as_coordinates(&runtime).unwrap_err() {
        Error::Value { error, inner } => {
            assert_eq!(error, "Value 2");
            assert_eq!(message(&inner.unwrap()), "Value is not a float or percentage");
        }
        other => panic!("unexpected error {:?}", other),
    }
    assert_eq!(
        message(&TemplateValue::Integer(1).as_coordinates(&runtime).unwrap_err()),
        "Value is not a tuple"
    );
}

#[test]
fn coordinates_resolve_against_the_parent() {
    assert_eq!(Coordinate::Exact(1234).to_float(100_000), 1234);
    assert_eq!(Coordinate::RelativeToParent(50).to_float(100_000), 50_000);
    assert_eq!(Coordinate::RelativeToParent(33).to_float(1000), 330);
    assert_eq!(Coordinate::RelativeToParent(33).to_float(10), 3);
    assert_eq!(Coordinate::RelativeToParent(-50).to_float(5), -3);
    assert_eq!(Coordinate::RelativeToParent(i32::MAX).to_float(i64::MAX), i64::MAX);
    let coordinates = Coordinates::from_vector(Vector2::new(1000, 2000));
    assert_eq!(coordinates.to_vector(Vector2::new(5, 5)), Vector2::new(1000, 2000));
    let coordinates = Coordinates::from_point(Point2::new(3000, 4000));
    assert_eq!(coordinates.to_point(Vector2::new(5, 5)), Point2::new(3000, 4000));
    let coordinates =
        Coordinates::new(Coordinate::RelativeToParent(10), Coordinate::RelativeToParent(200));
    assert_eq!(coordinates.to_vector(Vector2::new(1000, 1000)), Vector2::new(100, 2000));
}

#[test]
fn colors_are_read_from_tuples() {
    let runtime = ScriptRuntime::new();
    let value = TemplateValue::Tuple(vec![
        TemplateValue::Integer(255),
        TemplateValue::Integer(0),
        TemplateValue::Integer(10),
    ]);
    assert_eq!(value.as_color(&runtime).unwrap(), Color::new_u8(255, 0, 10, 255));
    let value = TemplateValue::Tuple(vec![
        TemplateValue::Integer(1),
        TemplateValue::Integer(2),
        TemplateValue::Integer(3),
        TemplateValue::Float(500),
    ]);
    assert_eq!(value.as_color(&runtime).unwrap(), Color::new_u8(1, 2, 3, 128));
    assert_eq!(Color::from_channels(0, 0, 0, Some(1000)).unwrap().alpha, 255);
    assert_eq!(Color::from_channels(0, 0, 0, Some(0)).unwrap().alpha, 0);
    assert_eq!(Color::from_channels(0, 0, 0, Some(100)).unwrap().alpha, 26);
    let alpha = Color::from_channels(0, 0, 0, Some(250)).unwrap().alpha;
    assert_eq!(alpha as f32, (255.0f32 * 0.25).round());
}

#[test]
fn colors_out_of_range_are_refused() {
    let error = Color::from_channels(256, 0, 0, None).unwrap_err();
    assert_eq!(message(&error), "Value 1: Out of range, valid range is 0 to 255");
    let error = Color::from_channels(0, -1, 0, None).unwrap_err();
    assert_eq!(message(&error), "Value 2: Out of range, valid range is 0 to 255");
    let error = Color::from_channels(0, 0, 300, None).unwrap_err();
    assert_eq!(message(&error), "Value 3: Out of range, valid range is 0 to 255");
    let error = Color::from_channels(999, 0, 0, Some(1001)).unwrap_err();
    assert_eq!(message(&error), "Value 4: Out of range, valid range is 0 to 1");
    let runtime = ScriptRuntime::new();
    let value = TemplateValue::Tuple(vec![TemplateValue::Integer(1), TemplateValue::Integer(2)]);
    assert_eq!(message(&value.as_color(&runtime).unwrap_err()), "Tuple is incorrect size");
    let value = TemplateValue::Tuple(vec![
        TemplateValue::Integer(1),
        TemplateValue::Float(2),
        TemplateValue::Integer(3),
    ]);
    match value.as_color(&runtime).unwrap_err() {
        Error::Value { error, .. } => assert_eq!(error, "Value 2"),
        other => panic!("unexpected error {:?}", other),
    }
}

#[test]
fn ranges_name_their_bounds() {
    assert_eq!(range_i(5, "Value 1", 0, 10), Ok(()));
    assert_eq!(
        range_i(-5, "Count", -3, 120),
        Err("Count: Out of range, valid range is -3 to 120".to_string())
    );
    assert_eq!(range_f(500, "Value 4", 0, 1000), Ok(()));
    assert_eq!(
        range_f(-501, "Share", -500, 1250),
        Err("Share: Out of range, valid range is -0.500 to 1.250".to_string())
    );
}

#[test]
fn event_hooks_are_read_from_strings_and_statements() {
    let runtime = ScriptRuntime::new();
    assert_eq!(
        TemplateValue::String("go".into()).as_event_hook(&runtime).unwrap(),
        EventHook::Direct("go".into())
    );
    assert_eq!(
        TemplateValue::ScriptStatement("go()".into()).as_event_hook(&runtime).unwrap(),
        EventHook::Script("go()".into())
    );
}

#[test]
fn errors_wrap_their_cause() {
    let error = Error::new_value("Value 1", Error::other("cause"));
    match error {
        Error::Value { error, inner } => {
            assert_eq!(error, "Value 1");
            assert_eq!(message(&inner.unwrap()), "cause");
        }
        other => panic!("unexpected error {:?}", other),
    }
    let error: Error = String::from("text").into();
    assert_eq!(message(&error), "text");
}
