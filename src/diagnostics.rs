use vstd::prelude::*;
use crate::ast::Span;

verus! {

/// The class of a reported problem.
#[derive(Clone, Copy, Debug, PartialEq, Eq, Structural)]
pub enum ErrorKind {
    /// A malformed literal or argument shape.
    ParserError,
    /// A value of the wrong kind at a position.
    TypeMismatch,
    /// A semantic rule is violated.
    ValidationError,
    /// A structural violation with a fixed message.
    StaticError,
}

/// One reported error.
#[derive(Debug)]
pub struct DatamodelError {
    pub kind: ErrorKind,
    pub message: String,
    pub span: Span,
}

/// What an error says, as plain values.
pub ghost struct ErrorView {
    pub kind: ErrorKind,
    pub message: Seq<char>,
    pub span: Span,
}

pub open spec fn error_view(kind: ErrorKind, message: Seq<char>, span: Span) -> ErrorView {
    ErrorView { kind, message, span }
}

impl View for DatamodelError {
    type V = ErrorView;

    open spec fn view(&self) -> ErrorView {
        ErrorView { kind: self.kind, message: self.message@, span: self.span }
    }
}

impl DatamodelError {
    pub fn new(kind: ErrorKind, message: String, span: Span) -> (r: DatamodelError)
        ensures
            r@ == error_view(kind, message@, span),
    {
        DatamodelError { kind, message, span }
    }

    /// A parser error whose message names what was expected.
    pub fn new_parser_error(expected: &str, span: Span) -> (r: DatamodelError)
        ensures
            r@ == error_view(ErrorKind::ParserError, expected@, span),
    {
        DatamodelError { kind: ErrorKind::ParserError, message: expected.to_owned(), span }
    }

    /// A semantic rule violation.
    pub fn new_validation_error(message: String, span: Span) -> (r: DatamodelError)
        ensures
            r@ == error_view(ErrorKind::ValidationError, message@, span),
    {
        DatamodelError { kind: ErrorKind::ValidationError, message, span }
    }

    /// A structural violation with a fixed message.
    pub fn new_static(message: &str, span: Span) -> (r: DatamodelError)
        ensures
            r@ == error_view(ErrorKind::StaticError, message@, span),
    {
        DatamodelError { kind: ErrorKind::StaticError, message: message.to_owned(), span }
    }

    /// The message text.
    pub fn message(&self) -> (r: &str)
        ensures
            r@ == self.message@,
    {
        self.message.as_str()
    }
}

/// The errors of one run, in the order in which they were reported.
#[derive(Debug)]
pub struct Diagnostics {
    pub errors: Vec<DatamodelError>,
}

impl View for Diagnostics {
    type V = Seq<ErrorView>;

    open spec fn view(&self) -> Seq<ErrorView> {
        self.errors@.map_values(|e: DatamodelError| e@)
    }
}

impl Diagnostics {
    pub fn new() -> (r: Diagnostics)
        ensures
            r@ == Seq::<ErrorView>::empty(),
    {
        let r = Diagnostics { errors: Vec::new() };
        assert(r@ =~= Seq::<ErrorView>::empty());
        r
    }

    /// Appends an error; nothing reported earlier moves.
    pub fn push_error(&mut self, e: DatamodelError)
        ensures
            final(self)@ == old(self)@.push(e@),
    {
        let ghost v = e@;
        self.errors.push(e);
        assert(self@ =~= old(self)@.push(v));
    }

    /// Whether any error was reported.
    pub fn has_errors(&self) -> (r: bool)
        ensures
            r == (self@.len() > 0),
    {
        self.errors.len() > 0
    }

    /// The number of errors reported.
    pub fn len(&self) -> (r: usize)
        ensures
            r == self@.len(),
    {
        self.errors.len()
    }

    /// The error at position `i`.
    pub fn get(&self, i: usize) -> (r: &DatamodelError)
        requires
            i < self@.len(),
        ensures
            r@ == self@[i as int],
    {
        &self.errors[i]
    }
}

} // verus!
