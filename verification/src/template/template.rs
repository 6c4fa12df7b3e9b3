//! Templates: documents with exactly one root component.
use vstd::prelude::*;
use crate::template::component::{template_views, ComponentTemplate};
use crate::template::forest::{has_later_root, indentation_error, lemma_roots, listing};
use crate::template::grammar::declarations_at;
use crate::template::parse::{parse_document, ParseError, ParseErrorKind, TemplateParser};
use crate::template::round_trip::accepts;

verus! {

/// A template, used to define how a group of components should be layouted and initialized
/// based on model data.
#[derive(Debug)]
pub struct Template {
    pub root: ComponentTemplate,
}

/// The error of the given kind that is about the document as a whole.
pub open spec fn document_error(kind: ParseErrorKind) -> ParseError {
    ParseError { kind, line: 0 }
}

impl Template {
    /// Parses a template from a string.
    ///
    /// Fails where the grammar does not accept the text, where the indentation is wrong,
    /// and where the text does not declare exactly one root component. Else the template is
    /// the one whose listing is the list of the declared components.
    pub fn from_str(text: &str) -> (r: Result<Self, ParseError>)
        ensures
            match declarations_at(text@, 0) {
                Err(line) => r == Err::<Self, ParseError>(
                    ParseError { kind: ParseErrorKind::Syntax, line: line as usize },
                ),
                Ok(declarations) => match indentation_error(declarations) {
                    Some(e) => r == Err::<Self, ParseError>(e),
                    None => if declarations.len() == 0 {
                        r == Err::<Self, ParseError>(document_error(ParseErrorKind::NoComponent))
                    } else if has_later_root(declarations) {
                        r == Err::<Self, ParseError>(
                            document_error(ParseErrorKind::MultipleRoots),
                        )
                    } else {
                        r matches Ok(template) && listing(template.root@, 0) == declarations
                    },
                },
            },
            r matches Ok(template) ==> accepts(text@, template.root@),
            (exists|root: crate::template::component::TemplateView| accepts(text@, root)) ==> r
                is Ok,
    {
        let declarations = match TemplateParser::parse(text) {
            Ok(declarations) => declarations,
            Err(e) => {
                return Err(e);
            },
        };
        let mut document = match parse_document(declarations) {
            Ok(document) => document,
            Err(e) => {
                return Err(e);
            },
        };
        proof {
            lemma_roots(template_views(document@));
        }
        if document.len() == 0 {
            return Err(ParseError { kind: ParseErrorKind::NoComponent, line: 0 });
        }
        if document.len() > 1 {
            return Err(ParseError { kind: ParseErrorKind::MultipleRoots, line: 0 });
        }
        match document.pop() {
            Some(root) => Ok(Template { root }),
            None => Err(ParseError { kind: ParseErrorKind::NoComponent, line: 0 }),
        }
    }
}

} // verus!
