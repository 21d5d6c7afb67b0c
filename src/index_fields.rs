use vstd::prelude::*;
use vstd::string::*;
use crate::ast::{Argument, Expression, Span};
use crate::diagnostics::{error_view, DatamodelError, Diagnostics, ErrorKind, ErrorView};
use crate::text::{decimal, push_decimal, parse_u32, parse_u32_spec, str_eq};

verus! {

/// The sort direction of one indexed field.
#[derive(Clone, Copy, Debug, PartialEq, Eq, Structural)]
pub enum SortOrder {
    Asc,
    Desc,
}

/// The operator classes that a connector knows by name.
#[derive(Clone, Copy, Debug, PartialEq, Eq, Structural)]
pub enum KnownOperatorClass {
    InetOps,
    JsonbOps,
    JsonbPathOps,
    ArrayOps,
    TextOps,
    BitMinMaxOps,
    VarBitMinMaxOps,
    BpcharBloomOps,
    BpcharMinMaxOps,
    ByteaBloomOps,
    ByteaMinMaxOps,
    DateBloomOps,
    DateMinMaxOps,
    DateMinMaxMultiOps,
    Float4BloomOps,
    Float4MinMaxOps,
    Float4MinMaxMultiOps,
    Float8BloomOps,
    Float8MinMaxOps,
    Float8MinMaxMultiOps,
    InetInclusionOps,
    InetBloomOps,
    InetMinMaxOps,
    InetMinMaxMultiOps,
    Int2BloomOps,
    Int2MinMaxOps,
    Int2MinMaxMultiOps,
    Int4BloomOps,
    Int4MinMaxOps,
    Int4MinMaxMultiOps,
    Int8BloomOps,
    Int8MinMaxOps,
    Int8MinMaxMultiOps,
    NumericBloomOps,
    NumericMinMaxOps,
    NumericMinMaxMultiOps,
    OidBloomOps,
    OidMinMaxOps,
    OidMinMaxMultiOps,
    TextBloomOps,
    TextMinMaxOps,
    TimestampBloomOps,
    TimestampMinMaxOps,
    TimestampMinMaxMultiOps,
    TimestampTzBloomOps,
    TimestampTzMinMaxOps,
    TimestampTzMinMaxMultiOps,
    TimeBloomOps,
    TimeMinMaxOps,
    TimeMinMaxMultiOps,
    TimeTzBloomOps,
    TimeTzMinMaxOps,
    TimeTzMinMaxMultiOps,
    UuidBloomOps,
    UuidMinMaxOps,
    UuidMinMaxMultiOps,
}

/// The catalog of named operator classes: exact, case-sensitive names.
pub open spec fn known_operator_class(s: Seq<char>) -> Option<KnownOperatorClass> {
    if s == "InetOps"@ {
        Some(KnownOperatorClass::InetOps)
    } else if s == "JsonbOps"@ {
        Some(KnownOperatorClass::JsonbOps)
    } else if s == "JsonbPathOps"@ {
        Some(KnownOperatorClass::JsonbPathOps)
    } else if s == "ArrayOps"@ {
        Some(KnownOperatorClass::ArrayOps)
    } else if s == "TextOps"@ {
        Some(KnownOperatorClass::TextOps)
    } else if s == "BitMinMaxOps"@ {
        Some(KnownOperatorClass::BitMinMaxOps)
    } else if s == "VarBitMinMaxOps"@ {
        Some(KnownOperatorClass::VarBitMinMaxOps)
    } else if s == "BpcharBloomOps"@ {
        Some(KnownOperatorClass::BpcharBloomOps)
    } else if s == "BpcharMinMaxOps"@ {
        Some(KnownOperatorClass::BpcharMinMaxOps)
    } else if s == "ByteaBloomOps"@ {
        Some(KnownOperatorClass::ByteaBloomOps)
    } else if s == "ByteaMinMaxOps"@ {
        Some(KnownOperatorClass::ByteaMinMaxOps)
    } else if s == "DateBloomOps"@ {
        Some(KnownOperatorClass::DateBloomOps)
    } else if s == "DateMinMaxOps"@ {
        Some(KnownOperatorClass::DateMinMaxOps)
    } else if s == "DateMinMaxMultiOps"@ {
        Some(KnownOperatorClass::DateMinMaxMultiOps)
    } else if s == "Float4BloomOps"@ {
        Some(KnownOperatorClass::Float4BloomOps)
    } else if s == "Float4MinMaxOps"@ {
        Some(KnownOperatorClass::Float4MinMaxOps)
    } else if s == "Float4MinMaxMultiOps"@ {
        Some(KnownOperatorClass::Float4MinMaxMultiOps)
    } else if s == "Float8BloomOps"@ {
        Some(KnownOperatorClass::Float8BloomOps)
    } else if s == "Float8MinMaxOps"@ {
        Some(KnownOperatorClass::Float8MinMaxOps)
    } else if s == "Float8MinMaxMultiOps"@ {
        Some(KnownOperatorClass::Float8MinMaxMultiOps)
    } else if s == "InetInclusionOps"@ {
        Some(KnownOperatorClass::InetInclusionOps)
    } else if s == "InetBloomOps"@ {
        Some(KnownOperatorClass::InetBloomOps)
    } else if s == "InetMinMaxOps"@ {
        Some(KnownOperatorClass::InetMinMaxOps)
    } else if s == "InetMinMaxMultiOps"@ {
        Some(KnownOperatorClass::InetMinMaxMultiOps)
    } else if s == "Int2BloomOps"@ {
        Some(KnownOperatorClass::Int2BloomOps)
    } else if s == "Int2MinMaxOps"@ {
        Some(KnownOperatorClass::Int2MinMaxOps)
    } else if s == "Int2MinMaxMultiOps"@ {
        Some(KnownOperatorClass::Int2MinMaxMultiOps)
    } else if s == "Int4BloomOps"@ {
        Some(KnownOperatorClass::Int4BloomOps)
    } else if s == "Int4MinMaxOps"@ {
        Some(KnownOperatorClass::Int4MinMaxOps)
    } else if s == "Int4MinMaxMultiOps"@ {
        Some(KnownOperatorClass::Int4MinMaxMultiOps)
    } else if s == "Int8BloomOps"@ {
        Some(KnownOperatorClass::Int8BloomOps)
    } else if s == "Int8MinMaxOps"@ {
        Some(KnownOperatorClass::Int8MinMaxOps)
    } else if s == "Int8MinMaxMultiOps"@ {
        Some(KnownOperatorClass::Int8MinMaxMultiOps)
    } else if s == "NumericBloomOps"@ {
        Some(KnownOperatorClass::NumericBloomOps)
    } else if s == "NumericMinMaxOps"@ {
        Some(KnownOperatorClass::NumericMinMaxOps)
    } else if s == "NumericMinMaxMultiOps"@ {
        Some(KnownOperatorClass::NumericMinMaxMultiOps)
    } else if s == "OidBloomOps"@ {
        Some(KnownOperatorClass::OidBloomOps)
    } else if s == "OidMinMaxOps"@ {
        Some(KnownOperatorClass::OidMinMaxOps)
    } else if s == "OidMinMaxMultiOps"@ {
        Some(KnownOperatorClass::OidMinMaxMultiOps)
    } else if s == "TextBloomOps"@ {
        Some(KnownOperatorClass::TextBloomOps)
    } else if s == "TextMinMaxOps"@ {
        Some(KnownOperatorClass::TextMinMaxOps)
    } else if s == "TimestampBloomOps"@ {
        Some(KnownOperatorClass::TimestampBloomOps)
    } else if s == "TimestampMinMaxOps"@ {
        Some(KnownOperatorClass::TimestampMinMaxOps)
    } else if s == "TimestampMinMaxMultiOps"@ {
        Some(KnownOperatorClass::TimestampMinMaxMultiOps)
    } else if s == "TimestampTzBloomOps"@ {
        Some(KnownOperatorClass::TimestampTzBloomOps)
    } else if s == "TimestampTzMinMaxOps"@ {
        Some(KnownOperatorClass::TimestampTzMinMaxOps)
    } else if s == "TimestampTzMinMaxMultiOps"@ {
        Some(KnownOperatorClass::TimestampTzMinMaxMultiOps)
    } else if s == "TimeBloomOps"@ {
        Some(KnownOperatorClass::TimeBloomOps)
    } else if s == "TimeMinMaxOps"@ {
        Some(KnownOperatorClass::TimeMinMaxOps)
    } else if s == "TimeMinMaxMultiOps"@ {
        Some(KnownOperatorClass::TimeMinMaxMultiOps)
    } else if s == "TimeTzBloomOps"@ {
        Some(KnownOperatorClass::TimeTzBloomOps)
    } else if s == "TimeTzMinMaxOps"@ {
        Some(KnownOperatorClass::TimeTzMinMaxOps)
    } else if s == "TimeTzMinMaxMultiOps"@ {
        Some(KnownOperatorClass::TimeTzMinMaxMultiOps)
    } else if s == "UuidBloomOps"@ {
        Some(KnownOperatorClass::UuidBloomOps)
    } else if s == "UuidMinMaxOps"@ {
        Some(KnownOperatorClass::UuidMinMaxOps)
    } else if s == "UuidMinMaxMultiOps"@ {
        Some(KnownOperatorClass::UuidMinMaxMultiOps)
    } else {
        None
    }
}

/// Looks a name up in the catalog of operator classes.
pub fn known_operator_class_by_name(s: &str) -> (r: Option<KnownOperatorClass>)
    ensures
        r == known_operator_class(s@),
{
    if str_eq(s, "InetOps") {
        Some(KnownOperatorClass::InetOps)
    } else if str_eq(s, "JsonbOps") {
        Some(KnownOperatorClass::JsonbOps)
    } else if str_eq(s, "JsonbPathOps") {
        Some(KnownOperatorClass::JsonbPathOps)
    } else if str_eq(s, "ArrayOps") {
        Some(KnownOperatorClass::ArrayOps)
    } else if str_eq(s, "TextOps") {
        Some(KnownOperatorClass::TextOps)
    } else if str_eq(s, "BitMinMaxOps") {
        Some(KnownOperatorClass::BitMinMaxOps)
    } else if str_eq(s, "VarBitMinMaxOps") {
        Some(KnownOperatorClass::VarBitMinMaxOps)
    } else if str_eq(s, "BpcharBloomOps") {
        Some(KnownOperatorClass::BpcharBloomOps)
    } else if str_eq(s, "BpcharMinMaxOps") {
        Some(KnownOperatorClass::BpcharMinMaxOps)
    } else if str_eq(s, "ByteaBloomOps") {
        Some(KnownOperatorClass::ByteaBloomOps)
    } else if str_eq(s, "ByteaMinMaxOps") {
        Some(KnownOperatorClass::ByteaMinMaxOps)
    } else if str_eq(s, "DateBloomOps") {
        Some(KnownOperatorClass::DateBloomOps)
    } else if str_eq(s, "DateMinMaxOps") {
        Some(KnownOperatorClass::DateMinMaxOps)
    } else if str_eq(s, "DateMinMaxMultiOps") {
        Some(KnownOperatorClass::DateMinMaxMultiOps)
    } else if str_eq(s, "Float4BloomOps") {
        Some(KnownOperatorClass::Float4BloomOps)
    } else if str_eq(s, "Float4MinMaxOps") {
        Some(KnownOperatorClass::Float4MinMaxOps)
    } else if str_eq(s, "Float4MinMaxMultiOps") {
        Some(KnownOperatorClass::Float4MinMaxMultiOps)
    } else if str_eq(s, "Float8BloomOps") {
        Some(KnownOperatorClass::Float8BloomOps)
    } else if str_eq(s, "Float8MinMaxOps") {
        Some(KnownOperatorClass::Float8MinMaxOps)
    } else if str_eq(s, "Float8MinMaxMultiOps") {
        Some(KnownOperatorClass::Float8MinMaxMultiOps)
    } else if str_eq(s, "InetInclusionOps") {
        Some(KnownOperatorClass::InetInclusionOps)
    } else if str_eq(s, "InetBloomOps") {
        Some(KnownOperatorClass::InetBloomOps)
    } else if str_eq(s, "InetMinMaxOps") {
        Some(KnownOperatorClass::InetMinMaxOps)
    } else if str_eq(s, "InetMinMaxMultiOps") {
        Some(KnownOperatorClass::InetMinMaxMultiOps)
    } else if str_eq(s, "Int2BloomOps") {
        Some(KnownOperatorClass::Int2BloomOps)
    } else if str_eq(s, "Int2MinMaxOps") {
        Some(KnownOperatorClass::Int2MinMaxOps)
    } else if str_eq(s, "Int2MinMaxMultiOps") {
        Some(KnownOperatorClass::Int2MinMaxMultiOps)
    } else if str_eq(s, "Int4BloomOps") {
        Some(KnownOperatorClass::Int4BloomOps)
    } else if str_eq(s, "Int4MinMaxOps") {
        Some(KnownOperatorClass::Int4MinMaxOps)
    } else if str_eq(s, "Int4MinMaxMultiOps") {
        Some(KnownOperatorClass::Int4MinMaxMultiOps)
    } else if str_eq(s, "Int8BloomOps") {
        Some(KnownOperatorClass::Int8BloomOps)
    } else if str_eq(s, "Int8MinMaxOps") {
        Some(KnownOperatorClass::Int8MinMaxOps)
    } else if str_eq(s, "Int8MinMaxMultiOps") {
        Some(KnownOperatorClass::Int8MinMaxMultiOps)
    } else if str_eq(s, "NumericBloomOps") {
        Some(KnownOperatorClass::NumericBloomOps)
    } else if str_eq(s, "NumericMinMaxOps") {
        Some(KnownOperatorClass::NumericMinMaxOps)
    } else if str_eq(s, "NumericMinMaxMultiOps") {
        Some(KnownOperatorClass::NumericMinMaxMultiOps)
    } else if str_eq(s, "OidBloomOps") {
        Some(KnownOperatorClass::OidBloomOps)
    } else if str_eq(s, "OidMinMaxOps") {
        Some(KnownOperatorClass::OidMinMaxOps)
    } else if str_eq(s, "OidMinMaxMultiOps") {
        Some(KnownOperatorClass::OidMinMaxMultiOps)
    } else if str_eq(s, "TextBloomOps") {
        Some(KnownOperatorClass::TextBloomOps)
    } else if str_eq(s, "TextMinMaxOps") {
        Some(KnownOperatorClass::TextMinMaxOps)
    } else if str_eq(s, "TimestampBloomOps") {
        Some(KnownOperatorClass::TimestampBloomOps)
    } else if str_eq(s, "TimestampMinMaxOps") {
        Some(KnownOperatorClass::TimestampMinMaxOps)
    } else if str_eq(s, "TimestampMinMaxMultiOps") {
        Some(KnownOperatorClass::TimestampMinMaxMultiOps)
    } else if str_eq(s, "TimestampTzBloomOps") {
        Some(KnownOperatorClass::TimestampTzBloomOps)
    } else if str_eq(s, "TimestampTzMinMaxOps") {
        Some(KnownOperatorClass::TimestampTzMinMaxOps)
    } else if str_eq(s, "TimestampTzMinMaxMultiOps") {
        Some(KnownOperatorClass::TimestampTzMinMaxMultiOps)
    } else if str_eq(s, "TimeBloomOps") {
        Some(KnownOperatorClass::TimeBloomOps)
    } else if str_eq(s, "TimeMinMaxOps") {
        Some(KnownOperatorClass::TimeMinMaxOps)
    } else if str_eq(s, "TimeMinMaxMultiOps") {
        Some(KnownOperatorClass::TimeMinMaxMultiOps)
    } else if str_eq(s, "TimeTzBloomOps") {
        Some(KnownOperatorClass::TimeTzBloomOps)
    } else if str_eq(s, "TimeTzMinMaxOps") {
        Some(KnownOperatorClass::TimeTzMinMaxOps)
    } else if str_eq(s, "TimeTzMinMaxMultiOps") {
        Some(KnownOperatorClass::TimeTzMinMaxMultiOps)
    } else if str_eq(s, "UuidBloomOps") {
        Some(KnownOperatorClass::UuidBloomOps)
    } else if str_eq(s, "UuidMinMaxOps") {
        Some(KnownOperatorClass::UuidMinMaxOps)
    } else if str_eq(s, "UuidMinMaxMultiOps") {
        Some(KnownOperatorClass::UuidMinMaxMultiOps)
    } else {
        None
    }
}

/// The operator class of one indexed field: a catalog entry, or a vendor
/// literal passed through untouched.
#[derive(Debug)]
pub enum OperatorClass {
    Constant(KnownOperatorClass),
    Raw(String),
}

pub ghost enum OperatorClassView {
    Constant(KnownOperatorClass),
    Raw(Seq<char>),
}

impl View for OperatorClass {
    type V = OperatorClassView;

    open spec fn view(&self) -> OperatorClassView {
        match self {
            OperatorClass::Constant(c) => OperatorClassView::Constant(*c),
            OperatorClass::Raw(s) => OperatorClassView::Raw(s@),
        }
    }
}

pub open spec fn opt_class_view(o: Option<OperatorClass>) -> Option<OperatorClassView> {
    match o {
        Some(c) => Some(c@),
        None => None,
    }
}

/// What an index says of one of its fields.
#[derive(Debug)]
pub struct IndexFieldAttributes {
    pub field_name: String,
    pub sort_order: Option<SortOrder>,
    pub length: Option<u32>,
    pub operator_class: Option<OperatorClass>,
}

pub ghost struct IndexFieldAttributesView {
    pub field_name: Seq<char>,
    pub sort_order: Option<SortOrder>,
    pub length: Option<u32>,
    pub operator_class: Option<OperatorClassView>,
}

impl View for IndexFieldAttributes {
    type V = IndexFieldAttributesView;

    open spec fn view(&self) -> IndexFieldAttributesView {
        IndexFieldAttributesView {
            field_name: self.field_name@,
            sort_order: self.sort_order,
            length: self.length,
            operator_class: opt_class_view(self.operator_class),
        }
    }
}

pub open spec fn attributes_view(v: Seq<IndexFieldAttributes>) -> Seq<IndexFieldAttributesView> {
    v.map_values(|a: IndexFieldAttributes| a@)
}

/// The named arguments of a call-shaped index field.
#[derive(Debug)]
pub struct FieldArguments {
    pub sort_order: Option<SortOrder>,
    pub length: Option<u32>,
    pub operator_class: Option<OperatorClass>,
}

pub ghost struct FieldArgumentsView {
    pub sort_order: Option<SortOrder>,
    pub length: Option<u32>,
    pub operator_class: Option<OperatorClassView>,
}

impl View for FieldArguments {
    type V = FieldArgumentsView;

    open spec fn view(&self) -> FieldArgumentsView {
        FieldArgumentsView {
            sort_order: self.sort_order,
            length: self.length,
            operator_class: opt_class_view(self.operator_class),
        }
    }
}

/// Whether the argument is named `name`.
pub open spec fn has_name(a: Argument, name: Seq<char>) -> bool {
    a.name is Some && a.name->0@ == name
}

/// The first argument named `name`, if any.
pub open spec fn first_named(args: Seq<Argument>, name: Seq<char>) -> Option<Argument>
    decreases args.len(),
{
    if args.len() == 0 {
        None
    } else if has_name(args[0], name) {
        Some(args[0])
    } else {
        first_named(args.drop_first(), name)
    }
}

pub open spec fn parser_error(expected: Seq<char>, span: Span) -> ErrorView {
    error_view(ErrorKind::ParserError, expected, span)
}

/// The `sort` argument: `Asc` or `Desc`; a value that is not a bare name counts as unset.
pub open spec fn sort_spec(args: Seq<Argument>) -> Result<Option<SortOrder>, ErrorView> {
    match first_named(args, "sort"@) {
        None => Ok(None),
        Some(a) => match a.value {
            Expression::ConstantValue(s, _) => if s@ == "Asc"@ {
                Ok(Some(SortOrder::Asc))
            } else if s@ == "Desc"@ {
                Ok(Some(SortOrder::Desc))
            } else {
                Err(parser_error("Asc, Desc"@, a.span))
            },
            _ => Ok(None),
        },
    }
}

/// The `length` argument: a numeric literal that fits a `u32`.
pub open spec fn length_spec(args: Seq<Argument>) -> Result<Option<u32>, ErrorView> {
    match first_named(args, "length"@) {
        None => Ok(None),
        Some(a) => match a.value {
            Expression::NumericValue(s, _) => match parse_u32_spec(s@) {
                Some(n) => Ok(Some(n)),
                None => Err(parser_error("valid integer"@, a.span)),
            },
            _ => Err(parser_error("valid integer"@, a.span)),
        },
    }
}

/// The `ops` argument: a catalog name, or `raw("literal")`.
pub open spec fn ops_spec(args: Seq<Argument>) -> Result<Option<OperatorClassView>, ErrorView> {
    match first_named(args, "ops"@) {
        None => Ok(None),
        Some(a) => match a.value {
            Expression::ConstantValue(s, span) => match known_operator_class(s@) {
                Some(c) => Ok(Some(OperatorClassView::Constant(c))),
                None => Err(parser_error("Invalid operator class: "@ + s@, span)),
            },
            Expression::Function(_, fargs, span) => if fargs@.len() == 1 {
                match fargs@[0].value {
                    Expression::StringValue(s, _) => Ok(Some(OperatorClassView::Raw(s@))),
                    _ => Err(parser_error("Invalid parameter type: expected string"@, span)),
                }
            } else {
                Err(
                    parser_error(
                        "Wrong number of arguments. Expected: 1, got: "@ + decimal(fargs@.len()),
                        span,
                    ),
                )
            },
            _ => Err(parser_error("operator class"@, a.span)),
        },
    }
}

/// A call under `ops` is always `raw(..)` in a schema that parsed.
pub open spec fn ops_call_is_raw(args: Seq<Argument>) -> bool {
    match first_named(args, "ops"@) {
        Some(a) => match a.value {
            Expression::Function(fun, _, _) => fun@ == "raw"@,
            _ => true,
        },
        None => true,
    }
}

/// The arguments of one index field: the first error in the order sort,
/// length, ops, or all three values.
pub open spec fn field_args_spec(args: Seq<Argument>) -> Result<FieldArgumentsView, ErrorView> {
    match sort_spec(args) {
        Err(e) => Err(e),
        Ok(sort_order) => match length_spec(args) {
            Err(e) => Err(e),
            Ok(length) => match ops_spec(args) {
                Err(e) => Err(e),
                Ok(operator_class) => Ok(FieldArgumentsView { sort_order, length, operator_class }),
            },
        },
    }
}

fn find_named<'a>(args: &'a Vec<Argument>, name: &str) -> (r: Option<&'a Argument>)
    ensures
        match r {
            Some(a) => first_named(args@, name@) == Some(*a),
            None => first_named(args@, name@) is None,
        },
{
    let mut i: usize = 0;
    assert(args@.skip(0) =~= args@);
    while i < args.len()
        invariant
            i <= args@.len(),
            first_named(args@, name@) == first_named(args@.skip(i as int), name@),
        decreases args@.len() - i,
    {
        let a = &args[i];
        assert(args@.skip(i as int)[0] == args@[i as int]);
        assert(args@.skip(i as int).drop_first() =~= args@.skip(i + 1));
        let hit = match &a.name {
            Some(n) => str_eq(n.as_str(), name),
            None => false,
        };
        if hit {
            return Some(a);
        }
        i = i + 1;
    }
    None
}

fn sort_argument(args: &Vec<Argument>) -> (r: Result<Option<SortOrder>, DatamodelError>)
    ensures
        match r {
            Ok(v) => sort_spec(args@) == Ok::<_, ErrorView>(v),
            Err(e) => sort_spec(args@) == Err::<Option<SortOrder>, _>(e@),
        },
{
    match find_named(args, "sort") {
        None => Ok(None),
        Some(arg) => match &arg.value {
            Expression::ConstantValue(s, _) => {
                if str_eq(s.as_str(), "Asc") {
                    Ok(Some(SortOrder::Asc))
                } else if str_eq(s.as_str(), "Desc") {
                    Ok(Some(SortOrder::Desc))
                } else {
                    Err(DatamodelError::new_parser_error("Asc, Desc", arg.span))
                }
            },
            _ => Ok(None),
        },
    }
}

fn length_argument(args: &Vec<Argument>) -> (r: Result<Option<u32>, DatamodelError>)
    ensures
        match r {
            Ok(v) => length_spec(args@) == Ok::<_, ErrorView>(v),
            Err(e) => length_spec(args@) == Err::<Option<u32>, _>(e@),
        },
{
    match find_named(args, "length") {
        None => Ok(None),
        Some(arg) => match &arg.value {
            Expression::NumericValue(s, _) => match parse_u32(s.as_str()) {
                Some(n) => Ok(Some(n)),
                None => Err(DatamodelError::new_parser_error("valid integer", arg.span)),
            },
            _ => Err(DatamodelError::new_parser_error("valid integer", arg.span)),
        },
    }
}

fn ops_argument(args: &Vec<Argument>) -> (r: Result<Option<OperatorClass>, DatamodelError>)
    requires
        ops_call_is_raw(args@),
    ensures
        match r {
            Ok(v) => ops_spec(args@) == Ok::<_, ErrorView>(opt_class_view(v)),
            Err(e) => ops_spec(args@) == Err::<Option<OperatorClassView>, _>(e@),
        },
{
    match find_named(args, "ops") {
        None => Ok(None),
        Some(arg) => match &arg.value {
            Expression::ConstantValue(s, span) => match known_operator_class_by_name(s.as_str()) {
                Some(c) => Ok(Some(OperatorClass::Constant(c))),
                None => {
                    let mut m = String::from_str("Invalid operator class: ");
                    m.append(s.as_str());
                    Err(DatamodelError::new(ErrorKind::ParserError, m, *span))
                },
            },
            Expression::Function(_, fargs, span) => {
                if fargs.len() == 1 {
                    match &fargs[0].value {
                        Expression::StringValue(s, _) => Ok(Some(OperatorClass::Raw(s.clone()))),
                        _ => Err(
                            DatamodelError::new_parser_error(
                                "Invalid parameter type: expected string",
                                *span,
                            ),
                        ),
                    }
                } else {
                    let mut m = String::from_str("Wrong number of arguments. Expected: 1, got: ");
                    push_decimal(&mut m, fargs.len());
                    Err(DatamodelError::new(ErrorKind::ParserError, m, *span))
                }
            },
            _ => Err(DatamodelError::new_parser_error("operator class", arg.span)),
        },
    }
}

/// Reads the named arguments `sort`, `length` and `ops` of one index field.
/// Only the first argument of each name counts; the first malformed one, in
/// that order, is the error.
pub fn field_args(args: &Vec<Argument>) -> (r: Result<FieldArguments, DatamodelError>)
    requires
        ops_call_is_raw(args@),
    ensures
        match r {
            Ok(v) => field_args_spec(args@) == Ok::<_, ErrorView>(v@),
            Err(e) => field_args_spec(args@) == Err::<FieldArgumentsView, _>(e@),
        },
{
    let sort_order = match sort_argument(args) {
        Ok(v) => v,
        Err(e) => return Err(e),
    };
    let length = match length_argument(args) {
        Ok(v) => v,
        Err(e) => return Err(e),
    };
    let operator_class = match ops_argument(args) {
        Ok(v) => v,
        Err(e) => return Err(e),
    };
    Ok(FieldArguments { sort_order, length, operator_class })
}

pub open spec fn type_mismatch(expected: Seq<char>, e: Expression) -> ErrorView {
    error_view(
        ErrorKind::TypeMismatch,
        "Expected a "@ + expected + " value, but received "@ + e.spec_value_type() + " value."@,
        e.spec_span(),
    )
}

/// What one entry of an index's field list resolves to.
pub open spec fn element_spec(e: Expression) -> Result<IndexFieldAttributesView, ErrorView> {
    match e {
        Expression::ConstantValue(name, _) => Ok(
            IndexFieldAttributesView {
                field_name: name@,
                sort_order: None,
                length: None,
                operator_class: None,
            },
        ),
        Expression::Function(name, args, _) => match field_args_spec(args@) {
            Ok(fa) => Ok(
                IndexFieldAttributesView {
                    field_name: name@,
                    sort_order: fa.sort_order,
                    length: fa.length,
                    operator_class: fa.operator_class,
                },
            ),
            Err(err) => Err(err),
        },
        _ => Err(type_mismatch("constant literal"@, e)),
    }
}

/// Every call-shaped entry has a well-formed `ops`.
pub open spec fn elements_well_formed(es: Seq<Expression>) -> bool {
    forall|i: int|
        0 <= i < es.len() ==> match #[trigger] es[i] {
            Expression::Function(_, args, _) => ops_call_is_raw(args@),
            _ => true,
        }
}

/// Resolves a list of entries, all or nothing: the attributes of every entry
/// when all resolve, and the error of each entry that does not, in order.
pub open spec fn resolve_elements(es: Seq<Expression>) -> (
    Option<Seq<IndexFieldAttributesView>>,
    Seq<ErrorView>,
)
    decreases es.len(),
{
    if es.len() == 0 {
        (Some(Seq::empty()), Seq::empty())
    } else {
        let prev = resolve_elements(es.drop_last());
        match element_spec(es.last()) {
            Ok(v) => (
                match prev.0 {
                    Some(p) => Some(p.push(v)),
                    None => None,
                },
                prev.1,
            ),
            Err(err) => (None, prev.1.push(err)),
        }
    }
}

/// What a whole field-list expression resolves to, and the errors it reports.
pub open spec fn field_list_spec(expr: Expression) -> (
    Option<Seq<IndexFieldAttributesView>>,
    Seq<ErrorView>,
) {
    match expr {
        Expression::Array(es, _) => resolve_elements(es@),
        _ => (None, seq![type_mismatch("array"@, expr)]),
    }
}

pub open spec fn field_list_well_formed(expr: Expression) -> bool {
    match expr {
        Expression::Array(es, _) => elements_well_formed(es@),
        _ => true,
    }
}

fn type_mismatch_error(expected: &str, e: &Expression) -> (r: DatamodelError)
    ensures
        r@ == type_mismatch(expected@, *e),
{
    let mut m = String::from_str("Expected a ");
    m.append(expected);
    m.append(" value, but received ");
    m.append(e.describe_value_type());
    m.append(" value.");
    DatamodelError::new(ErrorKind::TypeMismatch, m, e.span())
}

fn field_attributes(e: &Expression) -> (r: Result<IndexFieldAttributes, DatamodelError>)
    requires
        match *e {
            Expression::Function(_, args, _) => ops_call_is_raw(args@),
            _ => true,
        },
    ensures
        match r {
            Ok(v) => element_spec(*e) == Ok::<_, ErrorView>(v@),
            Err(err) => element_spec(*e) == Err::<IndexFieldAttributesView, _>(err@),
        },
{
    match e {
        Expression::ConstantValue(name, _) => Ok(
            IndexFieldAttributes {
                field_name: name.clone(),
                sort_order: None,
                length: None,
                operator_class: None,
            },
        ),
        Expression::Function(name, args, _) => match field_args(args) {
            Ok(fa) => Ok(
                IndexFieldAttributes {
                    field_name: name.clone(),
                    sort_order: fa.sort_order,
                    length: fa.length,
                    operator_class: fa.operator_class,
                },
            ),
            Err(err) => Err(err),
        },
        _ => Err(type_mismatch_error("constant literal", e)),
    }
}

/// Resolves the field list of an index. Every malformed entry reports one
/// error; the list comes back only when no entry was malformed.
pub fn coerce_field_array_with_args(expr: &Expression, diagnostics: &mut Diagnostics) -> (r: Option<
    Vec<IndexFieldAttributes>,
>)
    requires
        field_list_well_formed(*expr),
    ensures
        final(diagnostics)@ == old(diagnostics)@ + field_list_spec(*expr).1,
        resolves_to(*expr, list_seq(r)),
{
    match expr {
        Expression::Array(es, _) => {
            let mut out: Vec<IndexFieldAttributes> = Vec::new();
            let mut valid = true;
            let mut i: usize = 0;
            assert(es@.subrange(0, 0) =~= Seq::<Expression>::empty());
            assert(old(diagnostics)@ + Seq::<ErrorView>::empty() =~= old(diagnostics)@);
            while i < es.len()
                invariant
                    i <= es@.len(),
                    elements_well_formed(es@),
                    diagnostics@ == old(diagnostics)@ + resolve_elements(es@.subrange(0, i as int)).1,
                    valid == resolve_elements(es@.subrange(0, i as int)).0 is Some,
                    valid ==> resolve_elements(es@.subrange(0, i as int)).0 == Some(
                        attributes_view(out@),
                    ),
                decreases es@.len() - i,
            {
                let ghost pre = es@.subrange(0, i as int);
                let ghost cur = es@.subrange(0, i + 1);
                assert(cur.drop_last() =~= pre);
                assert(cur.last() == es@[i as int]);
                let ghost before = diagnostics@;
                match field_attributes(&es[i]) {
                    Ok(a) => {
                        if valid {
                            let ghost v = a@;
                            let ghost prev_out = out@;
                            out.push(a);
                            assert(attributes_view(out@) =~= attributes_view(prev_out).push(v));
                        }
                    },
                    Err(err) => {
                        diagnostics.push_error(err);
                        assert(diagnostics@ =~= old(diagnostics)@ + resolve_elements(cur).1);
                        valid = false;
                    },
                }
                i = i + 1;
            }
            assert(es@.subrange(0, es@.len() as int) =~= es@);
            if valid {
                Some(out)
            } else {
                None
            }
        },
        _ => {
            diagnostics.push_error(type_mismatch_error("array", expr));
            assert(final(diagnostics)@ =~= old(diagnostics)@ + seq![type_mismatch("array"@, *expr)]);
            None
        },
    }
}

pub open spec fn list_seq(r: Option<Vec<IndexFieldAttributes>>) -> Option<Seq<IndexFieldAttributes>> {
    match r {
        Some(v) => Some(v@),
        None => None,
    }
}

/// Whether `r` is what resolving `expr` hands back.
pub open spec fn resolves_to(expr: Expression, r: Option<Seq<IndexFieldAttributes>>) -> bool {
    match r {
        Some(v) => field_list_spec(expr).0 == Some(attributes_view(v)),
        None => field_list_spec(expr).0 is None,
    }
}

/// Resolution is a function of the expression alone: two resolutions of one
/// field list give the same attributes, entry for entry.
pub proof fn lemma_resolution_deterministic(
    expr: Expression,
    first: Option<Seq<IndexFieldAttributes>>,
    second: Option<Seq<IndexFieldAttributes>>,
)
    requires
        resolves_to(expr, first),
        resolves_to(expr, second),
    ensures
        first is Some <==> second is Some,
        first is Some ==> attributes_view(first->0) == attributes_view(second->0),
{
}

/// The `ops` argument of the entry is a bare name outside the catalog.
pub open spec fn names_unknown_operator_class(e: Expression) -> bool {
    match e {
        Expression::Function(_, args, _) => match first_named(args@, "ops"@) {
            Some(a) => match a.value {
                Expression::ConstantValue(s, _) => known_operator_class(s@) is None,
                _ => false,
            },
            None => false,
        },
        _ => false,
    }
}

/// An entry whose `ops` names no catalog class reports an error, and the
/// whole list then resolves to nothing, never to part of it.
pub proof fn lemma_unknown_operator_class_fails_list(es: Seq<Expression>, k: int)
    requires
        0 <= k < es.len(),
        names_unknown_operator_class(es[k]),
    ensures
        resolve_elements(es).0 is None,
        resolve_elements(es).1.len() >= 1,
    decreases es.len(),
{
    if k == es.len() - 1 {
    } else {
        lemma_unknown_operator_class_fails_list(es.drop_last(), k);
        assert(es.drop_last()[k] == es[k]);
    }
}

} // verus!
