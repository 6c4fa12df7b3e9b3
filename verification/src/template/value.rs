//! The values that attributes of a template can have, and what they can be read as.
use vstd::prelude::*;
use vstd::string::StringExecFns;
use crate::error::{Error, ErrorView};
use crate::geometry::{clamp, Point2, Scalar, Vector2};
use crate::scripting::ScriptRuntime;
use crate::text::{integer_text, push_integer, push_scalar, scalar_text};

verus! {

/// A template value, to be interpreted by components when created or updated.
#[derive(Debug, PartialEq)]
pub enum TemplateValue {
    /// A string text value.
    String(String),
    /// An integer numeric value.
    Integer(i32),
    /// A fractional numeric value, in thousandths.
    Float(Scalar),
    /// An integer percentage value.
    Percentage(i32),
    /// A tuple of values.
    Tuple(Vec<TemplateValue>),
    /// A null value.
    Default,
    /// A script that will be evaluated by the scripting engine.
    ScriptValue(String),
    /// A script statement that will be executed by the scripting engine.
    /// For example, allowing more complex responses to UI events in the template.
    ScriptStatement(String),
}

/// The mathematical content of a [`TemplateValue`].
pub enum ValueView {
    String(Seq<char>),
    Integer(int),
    Float(int),
    Percentage(int),
    Tuple(Seq<ValueView>),
    Default,
    ScriptValue(Seq<char>),
    ScriptStatement(Seq<char>),
}

impl View for TemplateValue {
    type V = ValueView;

    open spec fn view(&self) -> ValueView {
        self.model()
    }
}

/// The contents of the values of a sequence.
pub open spec fn value_views(values: Seq<TemplateValue>) -> Seq<ValueView> {
    Seq::new(values.len(), |i: int| values[i].model())
}

impl Clone for TemplateValue {
    fn clone(&self) -> (copy: Self)
        ensures
            copy@ == self@,
    {
        self.duplicate()
    }
}

/// A color with eight bits for each of red, green, blue and opacity.
#[derive(Debug, Clone, Copy, PartialEq, Eq, Structural)]
pub struct Color {
    pub red: u8,
    pub green: u8,
    pub blue: u8,
    pub alpha: u8,
}

/// What a component does when an event occurs: raise a named event, or run a script.
#[derive(Debug, PartialEq, Eq)]
pub enum EventHook {
    Direct(String),
    Script(String),
}

/// The mathematical content of an [`EventHook`].
pub enum EventHookView {
    Direct(Seq<char>),
    Script(Seq<char>),
}

impl View for EventHook {
    type V = EventHookView;

    open spec fn view(&self) -> EventHookView {
        match self {
            EventHook::Direct(name) => EventHookView::Direct(name@),
            EventHook::Script(script) => EventHookView::Script(script@),
        }
    }
}

/// A length along one axis: given as it is, or as a percentage of the parent's extent.
#[derive(Debug, Clone, Copy, PartialEq, Eq, Structural)]
pub enum Coordinate {
    Exact(Scalar),
    RelativeToParent(i32),
}

/// A pair of coordinates, one for each axis.
#[derive(Debug, Clone, Copy, PartialEq, Eq, Structural)]
pub struct Coordinates {
    pub x: Coordinate,
    pub y: Coordinate,
}

/// The error that carries only the message `text`.
pub open spec fn other(text: Seq<char>) -> ErrorView {
    ErrorView::Other { error: text }
}

/// The error that says which value of a tuple `inner` was raised for.
pub open spec fn wrapped(text: Seq<char>, inner: ErrorView) -> ErrorView {
    ErrorView::Value { error: text, inner: Some(Box::new(inner)) }
}

/// The message for a whole number outside of the range from `min` to `max`.
pub open spec fn range_text(id: Seq<char>, min: int, max: int) -> Seq<char> {
    id + ": Out of range, valid range is "@ + integer_text(min) + " to "@ + integer_text(max)
}

/// The message for a length outside of the range from `min` to `max`.
pub open spec fn range_text_scalar(id: Seq<char>, min: int, max: int) -> Seq<char> {
    id + ": Out of range, valid range is "@ + scalar_text(min) + " to "@ + scalar_text(max)
}

/// What reading a value gives: `None` where a script has to be evaluated, so that the
/// scripting engine decides; else the result.
pub type Reading<T> = Option<Result<T, ErrorView>>;

/// What a value gives when it is read as a string.
pub open spec fn string_of(v: ValueView) -> Reading<Seq<char>> {
    match v {
        ValueView::String(text) => Some(Ok(text)),
        ValueView::ScriptValue(_) => None,
        _ => Some(Err(other("Value is not a string"@))),
    }
}

/// What a value gives when it is read as an integer.
pub open spec fn integer_of(v: ValueView) -> Reading<int> {
    match v {
        ValueView::Integer(value) => Some(Ok(value)),
        ValueView::ScriptValue(_) => None,
        _ => Some(Err(other("Value is not an integer"@))),
    }
}

/// What a value gives when it is read as a fractional number, in thousandths.
pub open spec fn float_of(v: ValueView) -> Reading<int> {
    match v {
        ValueView::Float(value) => Some(Ok(value)),
        ValueView::ScriptValue(_) => None,
        _ => Some(Err(other("Value is not a float"@))),
    }
}

/// What a value gives when it is read as a coordinate.
pub open spec fn coordinate_of(v: ValueView) -> Reading<Coordinate> {
    match v {
        ValueView::Float(value) => Some(Ok(Coordinate::Exact(value as i64))),
        ValueView::Percentage(value) => Some(Ok(Coordinate::RelativeToParent(value as i32))),
        ValueView::ScriptValue(_) => None,
        _ => Some(Err(other("Value is not a float or percentage"@))),
    }
}

/// What a value gives when it is read as a pair of coordinates.
pub open spec fn coordinates_of(v: ValueView) -> Reading<Coordinates> {
    match v {
        ValueView::Tuple(values) => if values.len() == 2 {
            match coordinate_of(values[0]) {
                None => None,
                Some(Err(e)) => Some(Err(wrapped("Value 1"@, e))),
                Some(Ok(x)) => match coordinate_of(values[1]) {
                    None => None,
                    Some(Err(e)) => Some(Err(wrapped("Value 2"@, e))),
                    Some(Ok(y)) => Some(Ok(Coordinates { x, y })),
                },
            }
        } else {
            Some(Err(other("Tuple is incorrect size"@)))
        },
        _ => Some(Err(other("Value is not a tuple"@))),
    }
}

/// The opacity channel for an opacity between 0 and 1 that is given in thousandths:
/// 255 times the opacity, rounded to the nearest whole number, halves upwards.
pub open spec fn alpha_channel(alpha: int) -> int {
    (255 * alpha + 500) / 1000
}

/// The color with the given channels, or the error for the first that is out of range:
/// the opacity is looked at first, then red, green and blue.
pub open spec fn color_of_channels(red: int, green: int, blue: int, alpha: Option<int>) -> Result<
    Color,
    ErrorView,
> {
    if alpha is Some && !(0 <= alpha->0 <= 1000) {
        Err(other(range_text_scalar("Value 4"@, 0, 1000)))
    } else if !(0 <= red <= 255) {
        Err(other(range_text("Value 1"@, 0, 255)))
    } else if !(0 <= green <= 255) {
        Err(other(range_text("Value 2"@, 0, 255)))
    } else if !(0 <= blue <= 255) {
        Err(other(range_text("Value 3"@, 0, 255)))
    } else {
        Ok(
            Color {
                red: red as u8,
                green: green as u8,
                blue: blue as u8,
                alpha: match alpha {
                    Some(alpha) => alpha_channel(alpha) as u8,
                    None => 255u8,
                },
            },
        )
    }
}

/// What a value gives when it is read as a color.
pub open spec fn color_of(v: ValueView) -> Reading<Color> {
    match v {
        ValueView::Tuple(values) => if values.len() == 3 || values.len() == 4 {
            match integer_of(values[0]) {
                None => None,
                Some(Err(e)) => Some(Err(wrapped("Value 1"@, e))),
                Some(Ok(red)) => match integer_of(values[1]) {
                    None => None,
                    Some(Err(e)) => Some(Err(wrapped("Value 2"@, e))),
                    Some(Ok(green)) => match integer_of(values[2]) {
                        None => None,
                        Some(Err(e)) => Some(Err(wrapped("Value 3"@, e))),
                        Some(Ok(blue)) => if values.len() == 4 {
                            match float_of(values[3]) {
                                None => None,
                                Some(Err(e)) => Some(Err(wrapped("Value 4"@, e))),
                                Some(Ok(alpha)) => Some(
                                    color_of_channels(red, green, blue, Some(alpha)),
                                ),
                            }
                        } else {
                            Some(color_of_channels(red, green, blue, None))
                        },
                    },
                },
            }
        } else {
            Some(Err(other("Tuple is incorrect size"@)))
        },
        _ => Some(Err(other("Value is not a tuple"@))),
    }
}

/// What a value gives when it is read as an event hook.
pub open spec fn event_hook_of(v: ValueView) -> Reading<EventHookView> {
    match v {
        ValueView::String(name) => Some(Ok(EventHookView::Direct(name))),
        ValueView::ScriptValue(_) => None,
        ValueView::ScriptStatement(script) => Some(Ok(EventHookView::Script(script))),
        _ => Some(Err(other("Value is not a string or script statement"@))),
    }
}

/// Checks that `value` lies between `min` and `max`, and gives the message that names
/// `err_id` and the range where it does not.
pub fn range_i(value: i32, err_id: &str, min: i32, max: i32) -> (r: Result<(), String>)
    ensures
        min <= value <= max ==> r is Ok,
        !(min <= value <= max) ==> (r matches Err(text) && text@ == range_text(
            err_id@,
            min as int,
            max as int,
        )),
{
    if value >= min && value <= max {
        Ok(())
    } else {
        let mut text = err_id.to_owned();
        text.append(": Out of range, valid range is ");
        push_integer(&mut text, min as i64);
        text.append(" to ");
        push_integer(&mut text, max as i64);
        Err(text)
    }
}

/// Checks that the length `value` lies between `min` and `max`, and gives the message that
/// names `err_id` and the range where it does not.
pub fn range_f(value: Scalar, err_id: &str, min: Scalar, max: Scalar) -> (r: Result<(), String>)
    ensures
        min <= value <= max ==> r is Ok,
        !(min <= value <= max) ==> (r matches Err(text) && text@ == range_text_scalar(
            err_id@,
            min as int,
            max as int,
        )),
{
    if value >= min && value <= max {
        Ok(())
    } else {
        let mut text = err_id.to_owned();
        text.append(": Out of range, valid range is ");
        push_scalar(&mut text, min);
        text.append(" to ");
        push_scalar(&mut text, max);
        Err(text)
    }
}

impl Color {
    /// The color with the given channels.
    pub fn new_u8(red: u8, green: u8, blue: u8, alpha: u8) -> (color: Color)
        ensures
            color == (Color { red, green, blue, alpha }),
    {
        Color { red, green, blue, alpha }
    }

    /// The color with the given channels, where each of red, green and blue is between 0
    /// and 255 and the opacity, in thousandths, between 0 and 1. Without an opacity the
    /// color is opaque.
    pub fn from_channels(red: i32, green: i32, blue: i32, alpha: Option<Scalar>) -> (r: Result<
        Color,
        Error,
    >)
        ensures
            match color_of_channels(
                red as int,
                green as int,
                blue as int,
                match alpha {
                    Some(alpha) => Some(alpha as int),
                    None => None,
                },
            ) {
                Ok(color) => r == Ok::<Color, Error>(color),
                Err(e) => r matches Err(x) && x@ == e,
            },
    {
        let alpha_channel: u8 = match alpha {
            Some(alpha) => {
                match range_f(alpha, "Value 4", 0, 1000) {
                    Ok(()) => {},
                    Err(text) => {
                        return Err(Error::Other { error: text });
                    },
                }
                ((255 * alpha + 500) / 1000) as u8
            },
            None => 255,
        };
        match range_i(red, "Value 1", 0, 255) {
            Ok(()) => {},
            Err(text) => {
                return Err(Error::Other { error: text });
            },
        }
        match range_i(green, "Value 2", 0, 255) {
            Ok(()) => {},
            Err(text) => {
                return Err(Error::Other { error: text });
            },
        }
        match range_i(blue, "Value 3", 0, 255) {
            Ok(()) => {},
            Err(text) => {
                return Err(Error::Other { error: text });
            },
        }
        Ok(Color::new_u8(red as u8, green as u8, blue as u8, alpha_channel))
    }
}

/// Whether `r` is what the reading `expected` asks for: the expected result where the
/// value decides, and an error of the scripting engine or any value where the engine does.
pub open spec fn reads_as<T>(r: Result<T, Error>, expected: Reading<T>) -> bool {
    match expected {
        Some(Ok(value)) => r matches Ok(got) && got == value,
        Some(Err(e)) => r matches Err(x) && x@ == e,
        None => true,
    }
}

impl TemplateValue {
    /// The content of the value, nested values included.
    pub open spec fn model(&self) -> ValueView
        decreases self,
    {
        match self {
            TemplateValue::String(text) => ValueView::String(text@),
            TemplateValue::Integer(value) => ValueView::Integer(*value as int),
            TemplateValue::Float(value) => ValueView::Float(*value as int),
            TemplateValue::Percentage(value) => ValueView::Percentage(*value as int),
            TemplateValue::Tuple(values) => ValueView::Tuple(
                Seq::new(
                    values@.len(),
                    |i: int|
                        if 0 <= i < values@.len() {
                            values@[i].model()
                        } else {
                            ValueView::Default
                        },
                ),
            ),
            TemplateValue::Default => ValueView::Default,
            TemplateValue::ScriptValue(script) => ValueView::ScriptValue(script@),
            TemplateValue::ScriptStatement(script) => ValueView::ScriptStatement(script@),
        }
    }

    /// A copy of the value.
    pub fn duplicate(&self) -> (copy: Self)
        ensures
            copy@ == self@,
        decreases self,
    {
        match self {
            TemplateValue::String(text) => TemplateValue::String(text.clone()),
            TemplateValue::Integer(value) => TemplateValue::Integer(*value),
            TemplateValue::Float(value) => TemplateValue::Float(*value),
            TemplateValue::Percentage(value) => TemplateValue::Percentage(*value),
            TemplateValue::Tuple(values) => {
                let mut copies: Vec<TemplateValue> = Vec::new();
                let mut i: usize = 0;
                while i < values.len()
                    invariant
                        i <= values@.len(),
                        copies@.len() == i,
                        *self == TemplateValue::Tuple(*values),
                        decreases_to!(*self => *values),
                        forall|j: int| 0 <= j < i ==> copies@[j].model() == values@[j].model(),
                    decreases values@.len() - i,
                {
                    assert(decreases_to!(*values => values[i as int]));
                    copies.push(values[i].duplicate());
                    i += 1;
                }
                let copy = TemplateValue::Tuple(copies);
                assert(copy.model() matches ValueView::Tuple(a) && self.model() matches ValueView::Tuple(
                    b,
                ) && a =~= b);
                copy
            },
            TemplateValue::Default => TemplateValue::Default,
            TemplateValue::ScriptValue(script) => TemplateValue::ScriptValue(script.clone()),
            TemplateValue::ScriptStatement(script) => TemplateValue::ScriptStatement(
                script.clone(),
            ),
        }
    }

    /// Gets the string content of this value, or returns an error.
    ///
    /// A script value is evaluated by the engine, which decides the outcome.
    pub fn as_string(&self, runtime: &ScriptRuntime) -> (r: Result<String, Error>)
        ensures
            match string_of(self@) {
                Some(Ok(text)) => r matches Ok(got) && got@ == text,
                Some(Err(e)) => r matches Err(x) && x@ == e,
                None => r matches Err(x) ==> x@ is Script,
            },
    {
        match self {
            TemplateValue::String(value) => Ok(value.clone()),
            TemplateValue::ScriptValue(script) => runtime.eval_string(script.as_str()),
            _ => Err(Error::other("Value is not a string")),
        }
    }

    /// Gets the integer content of this value, or returns an error.
    ///
    /// A script value is evaluated by the engine, which decides the outcome.
    pub fn as_integer(&self, runtime: &ScriptRuntime) -> (r: Result<i32, Error>)
        ensures
            match integer_of(self@) {
                Some(Ok(value)) => r matches Ok(got) && got == value,
                Some(Err(e)) => r matches Err(x) && x@ == e,
                None => r matches Err(x) ==> x@ is Script,
            },
    {
        match self {
            TemplateValue::Integer(value) => Ok(*value),
            TemplateValue::ScriptValue(script) => runtime.eval_integer(script.as_str()),
            _ => Err(Error::other("Value is not an integer")),
        }
    }

    /// Gets the fractional content of this value in thousandths, or returns an error.
    ///
    /// A script value is evaluated by the engine, which decides the outcome.
    pub fn as_float(&self, runtime: &ScriptRuntime) -> (r: Result<Scalar, Error>)
        ensures
            match float_of(self@) {
                Some(Ok(value)) => r matches Ok(got) && got == value,
                Some(Err(e)) => r matches Err(x) && x@ == e,
                None => r matches Err(x) ==> x@ is Script,
            },
    {
        match self {
            TemplateValue::Float(value) => Ok(*value),
            TemplateValue::ScriptValue(script) => runtime.eval_float(script.as_str()),
            _ => Err(Error::other("Value is not a float")),
        }
    }

    /// Gets the values of this tuple, or returns an error.
    pub fn as_vec(&self) -> (r: Result<&Vec<TemplateValue>, Error>)
        ensures
            match self {
                TemplateValue::Tuple(values) => r matches Ok(got) && got == values,
                _ => r matches Err(x) && x@ == other("Value is not a tuple"@),
            },
    {
        match self {
            TemplateValue::Tuple(values) => Ok(values),
            _ => Err(Error::other("Value is not a tuple")),
        }
    }

    /// Gets the coordinate content of this value, which can be either an exact length, or a
    /// percentage relative to the parent.
    ///
    /// A script value is evaluated by the engine, which decides the outcome.
    pub fn as_coordinate(&self, runtime: &ScriptRuntime) -> (r: Result<Coordinate, Error>)
        ensures
            match coordinate_of(self@) {
                Some(Ok(value)) => r matches Ok(got) && got == value,
                Some(Err(e)) => r matches Err(x) && x@ == e,
                None => match r {
                    Ok(got) => got is Exact,
                    Err(x) => x@ is Script,
                },
            },
    {
        match self {
            TemplateValue::Float(value) => Ok(Coordinate::Exact(*value)),
            TemplateValue::Percentage(value) => Ok(Coordinate::RelativeToParent(*value)),
            TemplateValue::ScriptValue(script) => match runtime.eval_float(script.as_str()) {
                Ok(value) => Ok(Coordinate::Exact(value)),
                Err(e) => Err(e),
            },
            _ => Err(Error::other("Value is not a float or percentage")),
        }
    }

    /// Gets the pair of coordinates that this tuple of two values holds.
    ///
    /// Where one of the two is a script value the engine decides the outcome; an error then
    /// says which of the two it was raised for.
    pub fn as_coordinates(&self, runtime: &ScriptRuntime) -> (r: Result<Coordinates, Error>)
        ensures
            match coordinates_of(self@) {
                Some(Ok(value)) => r matches Ok(got) && got == value,
                Some(Err(e)) => r matches Err(x) && x@ == e,
                None => r matches Err(x) ==> x@ is Value,
            },
    {
        match self {
            TemplateValue::Tuple(values) => {
                if values.len() == 2 {
                    let x = match values[0].as_coordinate(runtime) {
                        Ok(x) => x,
                        Err(e) => {
                            return Err(Error::new_value("Value 1", e));
                        },
                    };
                    let y = match values[1].as_coordinate(runtime) {
                        Ok(y) => y,
                        Err(e) => {
                            return Err(Error::new_value("Value 2", e));
                        },
                    };
                    Ok(Coordinates::new(x, y))
                } else {
                    Err(Error::other("Tuple is incorrect size"))
                }
            },
            _ => Err(Error::other("Value is not a tuple")),
        }
    }

    /// Gets the color content of this value, or returns an error.
    ///
    /// The value is a tuple of red, green and blue between 0 and 255 and, optionally, an
    /// opacity between 0 and 1. Where one of them is a script value the engine decides the
    /// outcome.
    pub fn as_color(&self, runtime: &ScriptRuntime) -> (r: Result<Color, Error>)
        ensures
            match color_of(self@) {
                Some(Ok(value)) => r matches Ok(got) && got == value,
                Some(Err(e)) => r matches Err(x) && x@ == e,
                None => true,
            },
    {
        match self {
            TemplateValue::Tuple(values) => {
                let has_alpha = values.len() == 4;
                if values.len() == 3 || has_alpha {
                    let red = match values[0].as_integer(runtime) {
                        Ok(red) => red,
                        Err(e) => {
                            return Err(Error::new_value("Value 1", e));
                        },
                    };
                    let green = match values[1].as_integer(runtime) {
                        Ok(green) => green,
                        Err(e) => {
                            return Err(Error::new_value("Value 2", e));
                        },
                    };
                    let blue = match values[2].as_integer(runtime) {
                        Ok(blue) => blue,
                        Err(e) => {
                            return Err(Error::new_value("Value 3", e));
                        },
                    };
                    let alpha = if has_alpha {
                        match values[3].as_float(runtime) {
                            Ok(alpha) => Some(alpha),
                            Err(e) => {
                                return Err(Error::new_value("Value 4", e));
                            },
                        }
                    } else {
                        None
                    };
                    Color::from_channels(red, green, blue, alpha)
                } else {
                    Err(Error::other("Tuple is incorrect size"))
                }
            },
            _ => Err(Error::other("Value is not a tuple")),
        }
    }

    /// Gets the event hook that this value stands for, or returns an error.
    ///
    /// A script value is evaluated by the engine, which decides the outcome.
    pub fn as_event_hook(&self, runtime: &ScriptRuntime) -> (r: Result<EventHook, Error>)
        ensures
            match event_hook_of(self@) {
                Some(Ok(hook)) => r matches Ok(got) && got@ == hook,
                Some(Err(e)) => r matches Err(x) && x@ == e,
                None => match r {
                    Ok(got) => got is Direct,
                    Err(x) => x@ is Script,
                },
            },
    {
        match self {
            TemplateValue::String(value) => Ok(EventHook::Direct(value.clone())),
            TemplateValue::ScriptValue(script) => match runtime.eval_string(script.as_str()) {
                Ok(name) => Ok(EventHook::Direct(name)),
                Err(e) => Err(e),
            },
            TemplateValue::ScriptStatement(script) => Ok(EventHook::Script(script.clone())),
            _ => Err(Error::other("Value is not a string or script statement")),
        }
    }
}

/// The share of `parent` that `percent` hundredths of it make up, rounded down.
pub open spec fn share(parent: int, percent: int) -> int {
    (parent * percent) / 100
}

impl Coordinate {
    /// The length that this coordinate stands for inside a parent of the given extent.
    pub open spec fn resolve(self, parent: int) -> int {
        match self {
            Coordinate::Exact(value) => value as int,
            Coordinate::RelativeToParent(percent) => clamp(share(parent, percent as int)),
        }
    }

    /// The length that this coordinate stands for inside a parent of the given extent: the
    /// length itself where it is exact, else the percentage of the parent's extent, rounded
    /// down to a thousandth and limited to the range of a length.
    pub fn to_float(self, parent_container: Scalar) -> (length: Scalar)
        ensures
            length == self.resolve(parent_container as int),
    {
        match self {
            Coordinate::Exact(value) => value,
            Coordinate::RelativeToParent(percent) => {
                assert(-0x8000_0000_0000_0000 * 0x8000_0000 <= parent_container * percent
                    <= 0x8000_0000_0000_0000 * 0x8000_0000) by (nonlinear_arith)
                    requires
                        -0x8000_0000_0000_0000 <= parent_container < 0x8000_0000_0000_0000,
                        -0x8000_0000 <= percent < 0x8000_0000,
                ;
                let product: i128 = (parent_container as i128) * (percent as i128);
                let quotient: i128 = if product >= 0 {
                    product / 100
                } else {
                    -((99 - product) / 100)
                };
                if quotient < i64::MIN as i128 {
                    i64::MIN
                } else if quotient > i64::MAX as i128 {
                    i64::MAX
                } else {
                    quotient as i64
                }
            },
        }
    }
}

impl Coordinates {
    pub fn new(x: Coordinate, y: Coordinate) -> (coordinates: Self)
        ensures
            coordinates == (Coordinates { x, y }),
    {
        Coordinates { x, y }
    }

    /// The exact coordinates of a vector.
    pub fn from_vector(value: Vector2) -> (coordinates: Self)
        ensures
            coordinates == (Coordinates {
                x: Coordinate::Exact(value.x),
                y: Coordinate::Exact(value.y),
            }),
    {
        Coordinates { x: Coordinate::Exact(value.x), y: Coordinate::Exact(value.y) }
    }

    /// The exact coordinates of a point.
    pub fn from_point(value: Point2) -> (coordinates: Self)
        ensures
            coordinates == (Coordinates {
                x: Coordinate::Exact(value.x),
                y: Coordinate::Exact(value.y),
            }),
    {
        Coordinates { x: Coordinate::Exact(value.x), y: Coordinate::Exact(value.y) }
    }

    /// The vector that these coordinates stand for inside a parent of the given size.
    pub fn to_vector(&self, parent_container: Vector2) -> (vector: Vector2)
        ensures
            vector.x == self.x.resolve(parent_container.x as int),
            vector.y == self.y.resolve(parent_container.y as int),
    {
        Vector2::new(self.x.to_float(parent_container.x), self.y.to_float(parent_container.y))
    }

    /// The point that these coordinates stand for inside a parent of the given size.
    pub fn to_point(&self, parent_container: Vector2) -> (point: Point2)
        ensures
            point.x == self.x.resolve(parent_container.x as int),
            point.y == self.y.resolve(parent_container.y as int),
    {
        let vector = self.to_vector(parent_container);
        Point2::new(vector.x, vector.y)
    }
}

} // verus!
