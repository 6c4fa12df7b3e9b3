//! The error type shared by attribute resolution, scripting and rendering.
use vstd::prelude::*;

verus! {

/// An error raised while resolving, creating, updating or rendering components.
#[derive(Debug)]
#[allow(inconsistent_fields)]
pub enum Error {
    /// An attribute of a component could not be interpreted.
    Attribute { component: String, line: usize, field: String, inner: Box<Error> },
    /// A value did not have the shape or range that was asked for.
    Value { error: String, inner: Option<Box<Error>> },
    /// The scripting engine failed, `error` is its diagnostic.
    Script { error: String },
    /// An error passed through from a collaborator such as a renderer backend.
    Generic { error: String },
    /// Any other failure, described by a message.
    Other { error: String },
}

/// The mathematical content of an [`Error`].
#[allow(inconsistent_fields)]
pub enum ErrorView {
    Attribute { component: Seq<char>, line: nat, field: Seq<char>, inner: Box<ErrorView> },
    Value { error: Seq<char>, inner: Option<Box<ErrorView>> },
    Script { error: Seq<char> },
    Generic { error: Seq<char> },
    Other { error: Seq<char> },
}

impl View for Error {
    type V = ErrorView;

    open spec fn view(&self) -> ErrorView {
        self.model()
    }
}

impl From<String> for Error {
    fn from(error: String) -> (e: Self) {
        Error::Other { error }
    }
}

impl vstd::std_specs::convert::FromSpecImpl<String> for Error {
    open spec fn obeys_from_spec() -> bool {
        true
    }

    open spec fn from_spec(error: String) -> Self {
        Error::Other { error }
    }
}

impl Error {
    /// The content of the error, nested errors included.
    pub open spec fn model(&self) -> ErrorView
        decreases self,
    {
        match self {
            Error::Attribute { component, line, field, inner } => ErrorView::Attribute {
                component: component@,
                line: *line as nat,
                field: field@,
                inner: Box::new((**inner).model()),
            },
            Error::Value { error, inner } => ErrorView::Value {
                error: error@,
                inner: match inner {
                    Some(inner) => Some(Box::new((**inner).model())),
                    None => None,
                },
            },
            Error::Script { error } => ErrorView::Script { error: error@ },
            Error::Generic { error } => ErrorView::Generic { error: error@ },
            Error::Other { error } => ErrorView::Other { error: error@ },
        }
    }

    /// A value error with the given message that wraps the error which caused it.
    pub fn new_value(error: &str, inner: Error) -> (e: Error)
        ensures
            e@ == (ErrorView::Value { error: error@, inner: Some(Box::new(inner@)) }),
    {
        Error::Value { error: error.to_owned(), inner: Some(Box::new(inner)) }
    }

    /// The error that reports a failure of the scripting engine with its diagnostic.
    pub fn script(error: String) -> (e: Error)
        ensures
            e@ == (ErrorView::Script { error: error@ }),
    {
        Error::Script { error }
    }

    /// An error that only carries a message.
    pub fn other(error: &str) -> (e: Error)
        ensures
            e@ == (ErrorView::Other { error: error@ }),
    {
        Error::Other { error: error.to_owned() }
    }

    /// Wraps `inner` with the component and attribute it was raised for.
    pub fn attribute(component: &String, line: usize, field: &str, inner: Error) -> (e: Error)
        ensures
            e@ == (ErrorView::Attribute {
                component: component@,
                line: line as nat,
                field: field@,
                inner: Box::new(inner@),
            }),
    {
        Error::Attribute {
            component: component.clone(),
            line,
            field: field.to_owned(),
            inner: Box::new(inner),
        }
    }
}

} // verus!
