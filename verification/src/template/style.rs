//! Styles: documents whose top-level components are rules for component classes.
use vstd::prelude::*;
use crate::template::component::{template_views, ComponentTemplate};
use crate::template::forest::{forest_listing, indentation_error};
use crate::template::grammar::declarations_at;
use crate::template::parse::{parse_document, ParseError, ParseErrorKind, TemplateParser};

verus! {

/// A style template, used to define default values and style classes for use in templates.
#[derive(Debug)]
pub struct Style {
    pub components: Vec<ComponentTemplate>,
}

impl Style {
    /// Parses a style from a string.
    ///
    /// Fails where the grammar does not accept the text and where the indentation is wrong.
    /// Else the rules of the style are the forest whose listing is the list of the declared
    /// components.
    pub fn from_str(text: &str) -> (r: Result<Self, ParseError>)
        ensures
            match declarations_at(text@, 0) {
                Err(line) => r == Err::<Self, ParseError>(
                    ParseError { kind: ParseErrorKind::Syntax, line: line as usize },
                ),
                Ok(declarations) => match indentation_error(declarations) {
                    Some(e) => r == Err::<Self, ParseError>(e),
                    None => r matches Ok(style) && forest_listing(
                        template_views(style.components@),
                    ) == declarations,
                },
            },
    {
        let declarations = match TemplateParser::parse(text) {
            Ok(declarations) => declarations,
            Err(e) => {
                return Err(e);
            },
        };
        match parse_document(declarations) {
            Ok(components) => Ok(Style { components }),
            Err(e) => Err(e),
        }
    }
}

} // verus!
