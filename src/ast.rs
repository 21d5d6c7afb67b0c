use vstd::prelude::*;

verus! {

/// A half-open byte range in the schema source.
#[derive(Clone, Copy, Debug, PartialEq, Eq, Structural)]
pub struct Span {
    pub start: usize,
    pub end: usize,
}

impl Span {
    pub fn new(start: usize, end: usize) -> (r: Span)
        ensures
            r.start == start,
            r.end == end,
    {
        Span { start, end }
    }
}

/// How many values a field holds.
#[derive(Clone, Copy, Debug, PartialEq, Eq, Structural)]
pub enum FieldArity {
    Required,
    Optional,
    List,
}

/// A value expression of the schema syntax tree, as the parser hands it over.
#[derive(Debug)]
pub enum Expression {
    /// A numeric literal, kept as its source text.
    NumericValue(String, Span),
    /// A quoted string literal, without the quotes.
    StringValue(String, Span),
    /// A bare identifier.
    ConstantValue(String, Span),
    /// A call-shaped expression: `name(args)`.
    Function(String, Vec<Argument>, Span),
    /// A list literal: `[a, b]`.
    Array(Vec<Expression>, Span),
}

/// One argument of a call: `name: value`, or a positional `value`.
#[derive(Debug)]
pub struct Argument {
    pub name: Option<String>,
    pub value: Expression,
    pub span: Span,
}

impl Expression {
    pub open spec fn spec_span(&self) -> Span {
        match self {
            Expression::NumericValue(_, s) => *s,
            Expression::StringValue(_, s) => *s,
            Expression::ConstantValue(_, s) => *s,
            Expression::Function(_, _, s) => *s,
            Expression::Array(_, s) => *s,
        }
    }

    /// The source span of the expression.
    pub fn span(&self) -> (r: Span)
        ensures
            r == self.spec_span(),
    {
        match self {
            Expression::NumericValue(_, s) => *s,
            Expression::StringValue(_, s) => *s,
            Expression::ConstantValue(_, s) => *s,
            Expression::Function(_, _, s) => *s,
            Expression::Array(_, s) => *s,
        }
    }

    pub open spec fn spec_value_type(&self) -> Seq<char> {
        match self {
            Expression::NumericValue(..) => "numeric"@,
            Expression::StringValue(..) => "string"@,
            Expression::ConstantValue(..) => "literal"@,
            Expression::Function(..) => "functional"@,
            Expression::Array(..) => "array"@,
        }
    }

    /// The name of the expression's kind, as used in error messages.
    pub fn describe_value_type(&self) -> (r: &'static str)
        ensures
            r@ == self.spec_value_type(),
    {
        match self {
            Expression::NumericValue(..) => "numeric",
            Expression::StringValue(..) => "string",
            Expression::ConstantValue(..) => "literal",
            Expression::Function(..) => "functional",
            Expression::Array(..) => "array",
        }
    }
}

} // verus!
