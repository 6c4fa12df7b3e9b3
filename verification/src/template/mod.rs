//! Templates parsed in from markup.
pub mod attributes;
pub mod component;
pub mod forest;
pub mod grammar;
pub mod parse;
pub mod round_trip;
pub mod style;
pub mod template;
pub mod value;

pub use self::attributes::{Attributes, AttributesView};
pub use self::component::{AttributeView, ComponentTemplate, TemplateAttribute, TemplateView};
pub use self::parse::{Declaration, ParseError, ParseErrorKind, TemplateParser};
pub use self::style::Style;
pub use self::template::Template;
pub use self::value::{Color, Coordinate, Coordinates, EventHook, TemplateValue, ValueView};
